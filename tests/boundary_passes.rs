use cfd_sim::boundary::{
    enforce_boundaries, extrapolate_sides, extrapolate_walls, fill_block, stop_flow_at_solid,
};
use cfd_sim::grid::GridDims;

fn numbered(d: &GridDims) -> Vec<f64> {
    (0..d.cell_count()).map(|k| k as f64 + 1.0).collect()
}

#[test]
fn walls_copy_tangential_and_zero_normal() {
    let d = GridDims::new(3, 4).unwrap();
    let mut u = numbered(&d);
    let mut v = numbered(&d);
    let u0 = u.clone();
    let v0 = v.clone();
    extrapolate_walls(&d, &mut u, &mut v, 0.0);
    for i in 0..d.num_x {
        assert_eq!(u[d.index(i, 0)], u0[d.index(i, 1)]);
        assert_eq!(u[d.index(i, 5)], u0[d.index(i, 4)]);
        assert_eq!(v[d.index(i, 0)], 0.0);
        assert_eq!(v[d.index(i, 5)], 0.0);
        for j in 1..5 {
            assert_eq!(u[d.index(i, j)], u0[d.index(i, j)]);
            assert_eq!(v[d.index(i, j)], v0[d.index(i, j)]);
        }
    }
}

#[test]
fn sides_keep_held_inflow_and_copy_outflow() {
    let d = GridDims::new(2, 2).unwrap();
    let mut u = numbered(&d);
    let mut v = numbered(&d);
    let u0 = u.clone();
    let v0 = v.clone();
    let held = vec![true, false, true, false];
    extrapolate_sides(&d, &mut u, &mut v, &held);
    for j in 0..4 {
        let left = if held[j] { u0[d.index(0, j)] } else { u0[d.index(1, j)] };
        assert_eq!(u[d.index(0, j)], left);
        assert_eq!(v[d.index(0, j)], v0[d.index(1, j)]);
        assert_eq!(u[d.index(3, j)], u0[d.index(2, j)]);
        assert_eq!(v[d.index(3, j)], v0[d.index(2, j)]);
        assert_eq!(u[d.index(1, j)], u0[d.index(1, j)]);
        assert_eq!(u[d.index(2, j)], u0[d.index(2, j)]);
    }
}

#[test]
fn enforce_sets_inflow_walls_and_outflow() {
    let d = GridDims::new(4, 3).unwrap();
    let mut u = numbered(&d);
    let mut v = numbered(&d);
    let u0 = u.clone();
    let v0 = v.clone();
    let open = vec![false; d.cell_count()];
    enforce_boundaries(&d, &open, &mut u, &mut v, 10.0, 0.0);
    for j in 1..4 {
        assert_eq!(u[d.index(0, j)], 10.0);
        assert_eq!(u[d.index(1, j)], 10.0);
        assert_eq!(u[d.index(2, j)], u0[d.index(2, j)]);
        assert_eq!(u[d.index(5, j)], u0[d.index(4, j)]);
        assert_eq!(v[d.index(5, j)], v0[d.index(4, j)]);
        assert_eq!(v[d.index(0, j)], v0[d.index(0, j)]);
    }
    for i in 0..6 {
        assert_eq!(u[d.index(i, 0)], 0.0);
        assert_eq!(u[d.index(i, 4)], 0.0);
        assert_eq!(v[d.index(i, 0)], 0.0);
        assert_eq!(v[d.index(i, 4)], 0.0);
    }
}

#[test]
fn enforce_on_smallest_grid_copies_inflow_to_outflow() {
    let d = GridDims::new(1, 1).unwrap();
    let mut u = numbered(&d);
    let mut v = numbered(&d);
    let open = vec![false; d.cell_count()];
    enforce_boundaries(&d, &open, &mut u, &mut v, 2.5, 0.0);
    assert_eq!(u[d.index(2, 1)], 2.5);
    assert_eq!(u[d.index(2, 0)], 0.0);
}

#[test]
fn fill_block_writes_only_the_block() {
    let d = GridDims::new(3, 3).unwrap();
    let mut m = vec![0.0; d.cell_count()];
    fill_block(&d, &mut m, 1, 3, 1, 100, 1.0);
    for i in 0..5 {
        for j in 0..5 {
            let inside = (1..3).contains(&i) && j >= 1;
            assert_eq!(m[d.index(i, j)], if inside { 1.0 } else { 0.0 });
        }
    }
}

#[test]
fn fill_block_empty_block_changes_nothing() {
    let d = GridDims::new(3, 3).unwrap();
    let mut m = numbered(&d);
    let m0 = m.clone();
    fill_block(&d, &mut m, 3, 1, 0, 5, -1.0);
    assert_eq!(m, m0);
}

fn tunnel_walls(d: &GridDims) -> Vec<bool> {
    let mut solid = vec![false; d.cell_count()];
    for i in 0..d.num_x {
        solid[d.index(i, 0)] = true;
        solid[d.index(i, d.num_y - 1)] = true;
    }
    solid
}

#[test]
fn enforce_stops_suction_above_solid_wall() {
    let d = GridDims::new(4, 4).unwrap();
    let solid = tunnel_walls(&d);
    let mut u = vec![1.0; d.cell_count()];
    let mut v = vec![0.0; d.cell_count()];
    for i in 0..d.num_x {
        v[d.index(i, 1)] = 0.05;
        v[d.index(i, 2)] = 0.03;
        v[d.index(i, 4)] = -0.05;
    }
    enforce_boundaries(&d, &solid, &mut u, &mut v, 1.0, 0.0);
    for i in 0..d.num_x {
        // faces beside the solid bottom and top rows carry no flow
        assert_eq!(v[d.index(i, 1)], 0.0);
        assert_eq!(v[d.index(i, 5)], 0.0);
        // faces between open cells keep theirs
        assert_eq!(v[d.index(i, 2)], 0.03);
        assert_eq!(v[d.index(i, 4)], -0.05);
    }
}

#[test]
fn enforce_no_slip_wins_over_inflow() {
    let d = GridDims::new(4, 4).unwrap();
    let mut solid = vec![false; d.cell_count()];
    solid[d.index(1, 3)] = true;
    solid[d.index(3, 2)] = true;
    let mut u = numbered(&d);
    let mut v = numbered(&d);
    let u0 = u.clone();
    enforce_boundaries(&d, &solid, &mut u, &mut v, 10.0, 0.0);
    assert_eq!(u[d.index(1, 3)], 0.0);
    assert_eq!(u[d.index(2, 3)], 0.0);
    assert_eq!(u[d.index(1, 2)], 10.0);
    assert_eq!(u[d.index(0, 2)], 10.0);
    assert_eq!(u[d.index(3, 2)], 0.0);
    assert_eq!(u[d.index(4, 2)], 0.0);
    assert_eq!(u[d.index(2, 2)], u0[d.index(2, 2)]);
    assert_eq!(v[d.index(3, 2)], 0.0);
    assert_eq!(v[d.index(3, 3)], 0.0);
}

#[test]
fn stop_flow_leaves_open_faces() {
    let d = GridDims::new(3, 3).unwrap();
    let mut solid = vec![false; d.cell_count()];
    solid[d.index(2, 2)] = true;
    let mut u = numbered(&d);
    let mut v = numbered(&d);
    let u0 = u.clone();
    let v0 = v.clone();
    stop_flow_at_solid(&d, &solid, &mut u, &mut v, 0.0);
    for i in 0..5 {
        for j in 0..5 {
            let k = d.index(i, j);
            let u_zero = (i == 2 || i == 3) && j == 2;
            let v_zero = i == 2 && (j == 2 || j == 3);
            assert_eq!(u[k], if u_zero { 0.0 } else { u0[k] });
            assert_eq!(v[k], if v_zero { 0.0 } else { v0[k] });
        }
    }
}
