use cfd_sim::cells::{cell_set, member, CellSet};
use cfd_sim::grid::GridDims;
use cfd_sim::obstacle::interior_footprint;

fn walls(d: &GridDims) -> Vec<bool> {
    let mut solid = vec![false; d.cell_count()];
    for i in 0..d.num_x {
        solid[d.index(i, 0)] = true;
        solid[d.index(i, d.num_y - 1)] = true;
    }
    solid
}

#[test]
fn projection_covers_open_interior() {
    let d = GridDims::new(3, 3).unwrap();
    let solid = vec![false; d.cell_count()];
    let r = cell_set(&d, &solid, CellSet::Projection);
    for i in 0..5 {
        for j in 0..5 {
            let interior = (1..4).contains(&i) && (1..4).contains(&j);
            assert_eq!(r[d.index(i, j)], interior);
        }
    }
}

#[test]
fn projection_skips_solid_and_enclosed_cells() {
    let d = GridDims::new(3, 3).unwrap();
    let mut solid = vec![false; d.cell_count()];
    // (2, 2) solid; (1, 1) fully enclosed by solid neighbours
    solid[d.index(2, 2)] = true;
    solid[d.index(0, 1)] = true;
    solid[d.index(2, 1)] = true;
    solid[d.index(1, 0)] = true;
    solid[d.index(1, 2)] = true;
    let r = cell_set(&d, &solid, CellSet::Projection);
    assert!(!r[d.index(2, 2)]);
    assert!(!r[d.index(1, 1)]);
    assert!(!r[d.index(2, 1)]);
    assert!(r[d.index(3, 3)]);
    assert!(r[d.index(3, 1)]);
}

#[test]
fn gravity_faces_need_both_cells_open() {
    let d = GridDims::new(3, 3).unwrap();
    let solid = walls(&d);
    let r = cell_set(&d, &solid, CellSet::GravityFaces);
    // faces between the bottom wall and the first row are skipped
    assert!(!r[d.index(2, 1)]);
    assert!(r[d.index(2, 2)]);
    assert!(r[d.index(4, 3)]);
    assert!(!r[d.index(2, 4)]);
    assert!(!r[d.index(0, 2)]);
}

#[test]
fn advected_faces_and_cells() {
    let d = GridDims::new(3, 3).unwrap();
    let mut solid = vec![false; d.cell_count()];
    solid[d.index(2, 2)] = true;
    let u = cell_set(&d, &solid, CellSet::AdvectedU);
    let v = cell_set(&d, &solid, CellSet::AdvectedV);
    let m = cell_set(&d, &solid, CellSet::AdvectedSmoke);
    assert!(!u[d.index(2, 2)] && !u[d.index(3, 2)]);
    assert!(u[d.index(1, 2)] && u[d.index(4, 2)]);
    assert!(!u[d.index(2, 4)] && !u[d.index(2, 0)]);
    assert!(!v[d.index(2, 2)] && !v[d.index(2, 3)]);
    assert!(v[d.index(2, 4)] && !v[d.index(4, 2)]);
    assert!(!m[d.index(2, 2)] && m[d.index(1, 1)] && !m[d.index(0, 1)]);
}

#[test]
fn member_agrees_with_mask() {
    let d = GridDims::new(4, 3).unwrap();
    let mut solid = walls(&d);
    solid[d.index(3, 2)] = true;
    for set in [
        CellSet::Projection,
        CellSet::GravityFaces,
        CellSet::AdvectedU,
        CellSet::AdvectedV,
        CellSet::AdvectedSmoke,
    ] {
        let r = cell_set(&d, &solid, set);
        for i in 0..d.num_x {
            for j in 0..d.num_y {
                assert_eq!(r[d.index(i, j)], member(&d, &solid, set, i, j));
            }
        }
    }
}

#[test]
fn footprint_keeps_interior_cells_only() {
    let d = GridDims::new(3, 3).unwrap();
    let inside = vec![true; d.cell_count()];
    let r = interior_footprint(&d, &inside);
    assert_eq!(r.iter().filter(|b| **b).count(), 9);
    assert!(!r[d.index(0, 2)] && !r[d.index(4, 2)] && r[d.index(3, 3)]);
}
