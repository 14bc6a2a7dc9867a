use vstd::prelude::*;

verus! {

/// The quantity a bilinear sample is taken of. Each one lives on its own
/// staggered sub-grid of the cell grid.
#[derive(Debug, Clone, Copy, PartialEq, Eq, Structural)]
pub enum FieldType {
    /// Horizontal velocity, on the vertical faces between cells.
    U,
    /// Vertical velocity, on the horizontal faces between cells.
    V,
    /// Dye concentration, at cell centres.
    Smoke,
    /// Pressure, at cell centres.
    Pressure,
}

impl FieldType {
    /// Whether the nodes of this field sit half a cell into the cell along x.
    pub open spec fn spec_x_half(self) -> bool {
        !(self is U)
    }

    /// Whether the nodes of this field sit half a cell into the cell along y.
    pub open spec fn spec_y_half(self) -> bool {
        !(self is V)
    }

    /// The half-cell offsets `(along x, along y)` that are taken off a query
    /// point before it is turned into node coordinates: horizontal velocity is
    /// offset in y only, vertical velocity in x only, cell-centred scalars in both.
    pub fn half_cell_offsets(self) -> (r: (bool, bool))
        ensures
            r == (self.spec_x_half(), self.spec_y_half()),
    {
        match self {
            FieldType::U => (false, true),
            FieldType::V => (true, false),
            FieldType::Smoke => (true, true),
            FieldType::Pressure => (true, true),
        }
    }

    /// The offset along x of this field's nodes, in half cells.
    pub open spec fn x_offset(self) -> int {
        if self.spec_x_half() {
            1
        } else {
            0
        }
    }

    /// The offset along y of this field's nodes, in half cells.
    pub open spec fn y_offset(self) -> int {
        if self.spec_y_half() {
            1
        } else {
            0
        }
    }

    /// Position of node `(i, j)` of this field, in half cells from the grid origin.
    pub open spec fn node_in_half_cells(self, i: int, j: int) -> (int, int) {
        (2 * i + self.x_offset(), 2 * j + self.y_offset())
    }
}

/// The two node indices that a bilinear sample blends along one axis of `n`
/// nodes, given the index `base` of the node at or below the query point:
/// `base` clamped to the last node, and the node after it, clamped likewise.
pub open spec fn spec_stencil(n: int, base: int) -> (int, int) {
    let lo = if base < n - 1 { base } else { n - 1 };
    (lo, if lo + 1 < n - 1 { lo + 1 } else { n - 1 })
}

/// The node pair that a bilinear sample reads along one axis of `n` nodes.
/// The blending weight of the second node is the distance of the query point
/// past the first, so a query at node `base` itself reads that node alone.
pub fn stencil(n: usize, base: usize) -> (r: (usize, usize))
    requires
        n >= 1,
    ensures
        (r.0 as int, r.1 as int) == spec_stencil(n as int, base as int),
        r.0 < n,
        r.1 < n,
        base < n ==> r.0 == base,
{
    let lo = if base < n - 1 {
        base
    } else {
        n - 1
    };
    let hi = if lo + 1 < n - 1 {
        lo + 1
    } else {
        n - 1
    };
    (lo, hi)
}

/// A query placed exactly on node `(i, j)` of a field of `nx` by `ny` nodes,
/// once the field's own half-cell offsets are taken off, falls on a whole node
/// index on each axis (so both blending weights are zero), and the stencil's
/// first node there is `(i, j)` itself: the sample reads the stored value alone.
pub proof fn lemma_node_query_reads_node(f: FieldType, nx: int, ny: int, i: int, j: int)
    requires
        0 <= i < nx,
        0 <= j < ny,
    ensures
        (f.node_in_half_cells(i, j).0 - f.x_offset()) % 2 == 0,
        (f.node_in_half_cells(i, j).1 - f.y_offset()) % 2 == 0,
        spec_stencil(nx, (f.node_in_half_cells(i, j).0 - f.x_offset()) / 2).0 == i,
        spec_stencil(ny, (f.node_in_half_cells(i, j).1 - f.y_offset()) / 2).0 == j,
{
    assert((2 * i) / 2 == i && (2 * i) % 2 == 0) by (nonlinear_arith);
    assert((2 * j) / 2 == j && (2 * j) % 2 == 0) by (nonlinear_arith);
}

} // verus!
