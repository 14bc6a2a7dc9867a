use vstd::arithmetic::div_mod::{
    lemma_fundamental_div_mod, lemma_fundamental_div_mod_converse, lemma_mod_pos_bound,
};
use vstd::prelude::*;

verus! {

/// Why a grid could not be built.
#[derive(Debug, Clone, Copy, PartialEq, Eq, Structural)]
pub enum GridError {
    /// One of the interior dimensions is zero.
    Degenerate,
    /// The total number of cells, ghost layer included, does not fit in `usize`.
    TooLarge,
}

/// Dimensions of a cell grid, one ghost layer on each side included.
///
/// Cell `(i, j)` has `0 <= i < num_x` and `0 <= j < num_y`; its fields are stored
/// row-major at flat position `i * num_y + j`.
#[derive(Debug, Clone, Copy, PartialEq, Eq, Structural)]
pub struct GridDims {
    pub num_x: usize,
    pub num_y: usize,
}

impl GridDims {
    /// A grid with at least one interior cell per axis whose storage fits in memory.
    pub open spec fn wf(self) -> bool {
        &&& self.num_x >= 3
        &&& self.num_y >= 3
        &&& self.num_x * self.num_y <= usize::MAX
    }

    pub open spec fn cells(self) -> nat {
        (self.num_x * self.num_y) as nat
    }

    pub open spec fn in_grid(self, i: int, j: int) -> bool {
        0 <= i < self.num_x && 0 <= j < self.num_y
    }

    /// Flat storage position of cell (or face) `(i, j)`.
    pub open spec fn flat(self, i: int, j: int) -> int {
        i * self.num_y + j
    }

    /// The `i` coordinate of flat position `k`.
    pub open spec fn x_of(self, k: int) -> int {
        k / self.num_y as int
    }

    /// The `j` coordinate of flat position `k`.
    pub open spec fn y_of(self, k: int) -> int {
        k % self.num_y as int
    }

    /// Builds the grid for `interior_x` by `interior_y` cells, adding one ghost
    /// layer on each side of each axis.
    pub fn new(interior_x: usize, interior_y: usize) -> (r: Result<GridDims, GridError>)
        ensures
            (interior_x == 0 || interior_y == 0) <==> r == Err::<GridDims, GridError>(
                GridError::Degenerate,
            ),
            r == Err::<GridDims, GridError>(GridError::TooLarge) <==> (interior_x > 0
                && interior_y > 0 && (interior_x + 2) * (interior_y + 2) > usize::MAX),
            r is Ok <==> (interior_x > 0 && interior_y > 0 && (interior_x + 2) * (interior_y + 2)
                <= usize::MAX),
            r matches Ok(d) ==> d.wf() && d.num_x == interior_x + 2 && d.num_y == interior_y
                + 2,
    {
        if interior_x == 0 || interior_y == 0 {
            return Err(GridError::Degenerate);
        }
        if interior_x > usize::MAX - 2 || interior_y > usize::MAX - 2 {
            assert((interior_x + 2) * (interior_y + 2) > usize::MAX) by (nonlinear_arith)
                requires
                    interior_x >= 1,
                    interior_y >= 1,
                    interior_x > usize::MAX - 2 || interior_y > usize::MAX - 2,
            ;
            return Err(GridError::TooLarge);
        }
        let nx = interior_x + 2;
        let ny = interior_y + 2;
        match nx.checked_mul(ny) {
            None => Err(GridError::TooLarge),
            Some(_) => Ok(GridDims { num_x: nx, num_y: ny }),
        }
    }

    /// Number of cells in the grid, ghost layer included.
    pub fn cell_count(&self) -> (r: usize)
        requires
            self.wf(),
        ensures
            r == self.cells(),
    {
        self.num_x * self.num_y
    }

    /// Flat storage position of cell `(i, j)`.
    pub fn index(&self, i: usize, j: usize) -> (r: usize)
        requires
            self.wf(),
            self.in_grid(i as int, j as int),
        ensures
            r == self.flat(i as int, j as int),
            r < self.cells(),
    {
        proof {
            lemma_flat_in_range(*self, i as int, j as int);
        }
        i * self.num_y + j
    }
}

/// The flat position of a cell of the grid lies inside the storage.
pub proof fn lemma_flat_in_range(d: GridDims, i: int, j: int)
    requires
        d.wf(),
        d.in_grid(i, j),
    ensures
        0 <= d.flat(i, j) < d.cells(),
{
    assert(i * d.num_y + j < d.num_x * d.num_y) by (nonlinear_arith)
        requires
            0 <= i < d.num_x,
            0 <= j < d.num_y,
    ;
    assert(0 <= i * d.num_y) by (nonlinear_arith)
        requires
            0 <= i,
            0 <= d.num_y,
    ;
}

/// Each flat position of the storage is the position of exactly one cell.
pub proof fn lemma_cell_of_flat(d: GridDims, k: int)
    requires
        d.wf(),
        0 <= k < d.cells(),
    ensures
        d.in_grid(d.x_of(k), d.y_of(k)),
        d.flat(d.x_of(k), d.y_of(k)) == k,
{
    let ny = d.num_y as int;
    lemma_fundamental_div_mod(k, ny);
    lemma_mod_pos_bound(k, ny);
    let i = k / ny;
    let j = k % ny;
    assert(i * ny == ny * i) by (nonlinear_arith);
    assert(0 <= i < d.num_x) by (nonlinear_arith)
        requires
            k == ny * i + j,
            0 <= j < ny,
            0 <= k < d.num_x * ny,
            ny > 0,
    ;
}

/// The cell stored at flat position `flat(i, j)` is `(i, j)`.
pub proof fn lemma_flat_of_cell(d: GridDims, i: int, j: int)
    requires
        d.wf(),
        d.in_grid(i, j),
    ensures
        d.x_of(d.flat(i, j)) == i,
        d.y_of(d.flat(i, j)) == j,
        0 <= d.flat(i, j) < d.cells(),
{
    lemma_flat_in_range(d, i, j);
    lemma_fundamental_div_mod_converse(d.flat(i, j), d.num_y as int, i, j);
}

} // verus!
