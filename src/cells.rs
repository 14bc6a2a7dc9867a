use crate::grid::{lemma_cell_of_flat, lemma_flat_of_cell, GridDims};
use vstd::prelude::*;

verus! {

/// Whether cell `(i, j)` is fully solid (openness exactly zero) in the solid mask.
pub open spec fn solid_at(d: GridDims, solid: Seq<bool>, i: int, j: int) -> bool {
    solid[d.flat(i, j)]
}

/// Whether `(i, j)` is an interior cell, off the ghost layer.
pub open spec fn interior(d: GridDims, i: int, j: int) -> bool {
    1 <= i < d.num_x - 1 && 1 <= j < d.num_y - 1
}

/// Whether horizontal-velocity face `(i, j)` borders a fully solid cell: the
/// cell to its left `(i - 1, j)` or to its right `(i, j)`.
pub open spec fn u_face_touches_solid(d: GridDims, solid: Seq<bool>, i: int, j: int) -> bool {
    solid_at(d, solid, i, j) || (i >= 1 && solid_at(d, solid, i - 1, j))
}

/// Whether vertical-velocity face `(i, j)` borders a fully solid cell: the
/// cell below it `(i, j - 1)` or above it `(i, j)`.
pub open spec fn v_face_touches_solid(d: GridDims, solid: Seq<bool>, i: int, j: int) -> bool {
    solid_at(d, solid, i, j) || (j >= 1 && solid_at(d, solid, i, j - 1))
}

/// The sets of cells and faces that a solver phase updates, each decided by the
/// solid mask alone.
#[derive(Debug, Clone, Copy, PartialEq, Eq, Structural)]
pub enum CellSet {
    /// Cells that the pressure projection relaxes: interior, open, with at least
    /// one open neighbour (a zero neighbour-openness sum is skipped).
    Projection,
    /// Vertical-velocity faces that gravity acts on: both adjoining cells open.
    GravityFaces,
    /// Horizontal-velocity faces that are advected: both adjoining cells open,
    /// off the bottom and top rows.
    AdvectedU,
    /// Vertical-velocity faces that are advected: both adjoining cells open, off
    /// the left and right columns.
    AdvectedV,
    /// Interior open cells whose dye is advected.
    AdvectedSmoke,
}

/// Whether both cells beside vertical-velocity face `(i, j)` are open.
pub open spec fn u_face_open(d: GridDims, solid: Seq<bool>, i: int, j: int) -> bool {
    !solid_at(d, solid, i, j) && !solid_at(d, solid, i - 1, j)
}

/// Whether both cells beside horizontal-velocity face `(i, j)` are open.
pub open spec fn v_face_open(d: GridDims, solid: Seq<bool>, i: int, j: int) -> bool {
    !solid_at(d, solid, i, j) && !solid_at(d, solid, i, j - 1)
}

/// Whether all four neighbours of cell `(i, j)` are solid, so that the sum of
/// their openness is zero.
pub open spec fn enclosed(d: GridDims, solid: Seq<bool>, i: int, j: int) -> bool {
    &&& solid_at(d, solid, i - 1, j)
    &&& solid_at(d, solid, i + 1, j)
    &&& solid_at(d, solid, i, j - 1)
    &&& solid_at(d, solid, i, j + 1)
}

/// Membership of `(i, j)` in `set`.
pub open spec fn in_set(d: GridDims, solid: Seq<bool>, set: CellSet, i: int, j: int) -> bool {
    match set {
        CellSet::Projection => interior(d, i, j) && !solid_at(d, solid, i, j) && !enclosed(
            d,
            solid,
            i,
            j,
        ),
        CellSet::GravityFaces => 1 <= i < d.num_x && 1 <= j < d.num_y - 1 && v_face_open(
            d,
            solid,
            i,
            j,
        ),
        CellSet::AdvectedU => 1 <= i < d.num_x && 1 <= j < d.num_y - 1 && u_face_open(
            d,
            solid,
            i,
            j,
        ),
        CellSet::AdvectedV => 1 <= i < d.num_x - 1 && 1 <= j < d.num_y && v_face_open(
            d,
            solid,
            i,
            j,
        ),
        CellSet::AdvectedSmoke => interior(d, i, j) && !solid_at(d, solid, i, j),
    }
}

/// Whether cell or face `(i, j)` belongs to `set`.
pub fn member(d: &GridDims, solid: &[bool], set: CellSet, i: usize, j: usize) -> (r: bool)
    requires
        d.wf(),
        solid@.len() == d.cells(),
        d.in_grid(i as int, j as int),
    ensures
        r == in_set(*d, solid@, set, i as int, j as int),
{
    let nx = d.num_x;
    let ny = d.num_y;
    match set {
        CellSet::Projection => {
            if i < 1 || i >= nx - 1 || j < 1 || j >= ny - 1 || solid[d.index(i, j)] {
                false
            } else {
                !(solid[d.index(i - 1, j)] && solid[d.index(i + 1, j)] && solid[d.index(i, j - 1)]
                    && solid[d.index(i, j + 1)])
            }
        },
        CellSet::GravityFaces => {
            i >= 1 && j >= 1 && j < ny - 1 && !solid[d.index(i, j)] && !solid[d.index(i, j - 1)]
        },
        CellSet::AdvectedU => {
            i >= 1 && j >= 1 && j < ny - 1 && !solid[d.index(i, j)] && !solid[d.index(i - 1, j)]
        },
        CellSet::AdvectedV => {
            i >= 1 && i < nx - 1 && j >= 1 && !solid[d.index(i, j)] && !solid[d.index(i, j - 1)]
        },
        CellSet::AdvectedSmoke => {
            i >= 1 && i < nx - 1 && j >= 1 && j < ny - 1 && !solid[d.index(i, j)]
        },
    }
}

/// The mask of `set` over the whole grid, in storage order. Sweeping it in
/// storage order visits the cells in the order of the Gauss-Seidel relaxation.
pub fn cell_set(d: &GridDims, solid: &[bool], set: CellSet) -> (r: Vec<bool>)
    requires
        d.wf(),
        solid@.len() == d.cells(),
    ensures
        r@.len() == d.cells(),
        forall|i: int, j: int|
            d.in_grid(i, j) ==> #[trigger] r@[d.flat(i, j)] == in_set(*d, solid@, set, i, j),
{
    let n = d.cell_count();
    let ny = d.num_y;
    let mut r: Vec<bool> = Vec::with_capacity(n);
    let mut k: usize = 0;
    while k < n
        invariant
            d.wf(),
            solid@.len() == d.cells(),
            n == d.cells(),
            ny == d.num_y,
            k <= n,
            r@.len() == k,
            forall|m: int|
                0 <= m < k ==> #[trigger] r@[m] == in_set(
                    *d,
                    solid@,
                    set,
                    d.x_of(m),
                    d.y_of(m),
                ),
        decreases n - k,
    {
        proof {
            lemma_cell_of_flat(*d, k as int);
        }
        let b = member(d, solid, set, k / ny, k % ny);
        r.push(b);
        k += 1;
    }
    assert forall|i: int, j: int| d.in_grid(i, j) implies #[trigger] r@[d.flat(i, j)] == in_set(
        *d,
        solid@,
        set,
        i,
        j,
    ) by {
        lemma_flat_of_cell(*d, i, j);
    }
    r
}

} // verus!
