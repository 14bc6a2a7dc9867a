use cfd_sim::grid::{GridDims, GridError};
use cfd_sim::sampling::{stencil, FieldType};

#[test]
fn new_adds_ghost_layer() {
    let d = GridDims::new(10, 10).unwrap();
    assert_eq!(d.num_x, 12);
    assert_eq!(d.num_y, 12);
    assert_eq!(d.cell_count(), 144);
}

#[test]
fn new_rejects_zero_dimensions() {
    assert_eq!(GridDims::new(0, 5), Err(GridError::Degenerate));
    assert_eq!(GridDims::new(5, 0), Err(GridError::Degenerate));
    assert_eq!(GridDims::new(0, 0), Err(GridError::Degenerate));
}

#[test]
fn new_rejects_oversized_grid() {
    assert_eq!(GridDims::new(usize::MAX, 3), Err(GridError::TooLarge));
    assert_eq!(GridDims::new(1usize << 40, 1usize << 40), Err(GridError::TooLarge));
}

#[test]
fn smallest_grid() {
    let d = GridDims::new(1, 1).unwrap();
    assert_eq!((d.num_x, d.num_y), (3, 3));
    assert_eq!(d.index(2, 2), 8);
}

#[test]
fn index_is_row_major() {
    let d = GridDims::new(3, 2).unwrap();
    assert_eq!(d.index(0, 0), 0);
    assert_eq!(d.index(0, 3), 3);
    assert_eq!(d.index(1, 0), 4);
    assert_eq!(d.index(4, 3), 19);
}

#[test]
fn field_offsets_follow_staggering() {
    assert_eq!(FieldType::U.half_cell_offsets(), (false, true));
    assert_eq!(FieldType::V.half_cell_offsets(), (true, false));
    assert_eq!(FieldType::Smoke.half_cell_offsets(), (true, true));
    assert_eq!(FieldType::Pressure.half_cell_offsets(), (true, true));
}

#[test]
fn stencil_inside_and_clamped() {
    assert_eq!(stencil(12, 4), (4, 5));
    assert_eq!(stencil(12, 10), (10, 11));
    assert_eq!(stencil(12, 11), (11, 11));
    assert_eq!(stencil(12, 40), (11, 11));
    assert_eq!(stencil(1, 0), (0, 0));
}

#[test]
fn stencil_at_node_reads_that_node() {
    for k in 0..12usize {
        assert_eq!(stencil(12, k).0, k);
    }
}
