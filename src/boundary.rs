use crate::cells::{u_face_touches_solid, v_face_touches_solid};
use crate::grid::{lemma_cell_of_flat, lemma_flat_of_cell, GridDims};
use vstd::prelude::*;

verus! {

/// Value of field `f` at cell or face `(i, j)`, in row-major storage.
pub open spec fn at<T>(d: GridDims, f: Seq<T>, i: int, j: int) -> T {
    f[d.flat(i, j)]
}

/// Horizontal velocity after the wall extrapolation: the bottom and top rows
/// copy the tangential velocity of the row next to them.
pub open spec fn walls_u<T>(d: GridDims, u: Seq<T>, i: int, j: int) -> T {
    if j == 0 {
        at(d, u, i, 1)
    } else if j == d.num_y - 1 {
        at(d, u, i, d.num_y - 2)
    } else {
        at(d, u, i, j)
    }
}

/// Vertical velocity after the wall extrapolation: no flow through the bottom
/// and top rows.
pub open spec fn walls_v<T>(d: GridDims, v: Seq<T>, zero: T, i: int, j: int) -> T {
    if j == 0 || j == d.num_y - 1 {
        zero
    } else {
        at(d, v, i, j)
    }
}

/// Extrapolates velocity onto the bottom and top rows after the projection.
pub fn extrapolate_walls<T: Copy>(d: &GridDims, u: &mut [T], v: &mut [T], zero: T)
    requires
        d.wf(),
        old(u)@.len() == d.cells(),
        old(v)@.len() == d.cells(),
    ensures
        final(u)@.len() == d.cells(),
        final(v)@.len() == d.cells(),
        forall|i: int, j: int|
            d.in_grid(i, j) ==> #[trigger] at(*d, final(u)@, i, j) == walls_u(*d, old(u)@, i, j),
        forall|i: int, j: int|
            d.in_grid(i, j) ==> #[trigger] at(*d, final(v)@, i, j) == walls_v(
                *d,
                old(v)@,
                zero,
                i,
                j,
            ),
{
    let n = d.cell_count();
    let ny = d.num_y;
    let mut k: usize = 0;
    while k < n
        invariant
            d.wf(),
            n == d.cells(),
            ny == d.num_y,
            k <= n,
            u@.len() == n,
            v@.len() == n,
            old(u)@.len() == n,
            old(v)@.len() == n,
            forall|m: int|
                0 <= m < k ==> #[trigger] u@[m] == walls_u(*d, old(u)@, d.x_of(m), d.y_of(m)),
            forall|m: int| k <= m < n ==> #[trigger] u@[m] == old(u)@[m],
            forall|m: int|
                0 <= m < k ==> #[trigger] v@[m] == walls_v(
                    *d,
                    old(v)@,
                    zero,
                    d.x_of(m),
                    d.y_of(m),
                ),
            forall|m: int| k <= m < n ==> #[trigger] v@[m] == old(v)@[m],
        decreases n - k,
    {
        proof {
            lemma_cell_of_flat(*d, k as int);
        }
        let i = k / ny;
        let j = k % ny;
        if j == 0 {
            let p = d.index(i, 1);
            u[k] = u[p];
            v[k] = zero;
        } else if j == ny - 1 {
            let p = d.index(i, ny - 2);
            proof {
                lemma_flat_of_cell(*d, i as int, ny - 2);
            }
            u[k] = u[p];
            v[k] = zero;
        }
        k += 1;
    }
    proof {
        assert forall|i: int, j: int| d.in_grid(i, j) implies #[trigger] at(*d, u@, i, j)
            == walls_u(*d, old(u)@, i, j) by {
            lemma_flat_of_cell(*d, i, j);
        }
        assert forall|i: int, j: int| d.in_grid(i, j) implies #[trigger] at(*d, v@, i, j)
            == walls_v(*d, old(v)@, zero, i, j) by {
            lemma_flat_of_cell(*d, i, j);
        }
    }
}

/// Horizontal velocity after the side extrapolation: the left face keeps a held
/// inflow and otherwise copies the face to its right; the right (outflow) face
/// copies the face to its left.
pub open spec fn sides_u<T>(d: GridDims, u: Seq<T>, inflow_held: Seq<bool>, i: int, j: int) -> T {
    if i == 0 && !inflow_held[j] {
        at(d, u, 1, j)
    } else if i == d.num_x - 1 {
        at(d, u, d.num_x - 2, j)
    } else {
        at(d, u, i, j)
    }
}

/// Vertical velocity after the side extrapolation: both side columns copy the
/// column next to them.
pub open spec fn sides_v<T>(d: GridDims, v: Seq<T>, i: int, j: int) -> T {
    if i == 0 {
        at(d, v, 1, j)
    } else if i == d.num_x - 1 {
        at(d, v, d.num_x - 2, j)
    } else {
        at(d, v, i, j)
    }
}

/// Extrapolates velocity onto the left and right columns after the wall
/// extrapolation. `inflow_held[j]` tells whether the left face of row `j`
/// carries a (nonzero) inflow, which is then kept.
pub fn extrapolate_sides<T: Copy>(d: &GridDims, u: &mut [T], v: &mut [T], inflow_held: &[bool])
    requires
        d.wf(),
        old(u)@.len() == d.cells(),
        old(v)@.len() == d.cells(),
        inflow_held@.len() == d.num_y,
    ensures
        final(u)@.len() == d.cells(),
        final(v)@.len() == d.cells(),
        forall|i: int, j: int|
            d.in_grid(i, j) ==> #[trigger] at(*d, final(u)@, i, j) == sides_u(
                *d,
                old(u)@,
                inflow_held@,
                i,
                j,
            ),
        forall|i: int, j: int|
            d.in_grid(i, j) ==> #[trigger] at(*d, final(v)@, i, j) == sides_v(*d, old(v)@, i, j),
{
    let n = d.cell_count();
    let nx = d.num_x;
    let ny = d.num_y;
    let mut k: usize = 0;
    while k < n
        invariant
            d.wf(),
            n == d.cells(),
            nx == d.num_x,
            ny == d.num_y,
            k <= n,
            inflow_held@.len() == ny,
            u@.len() == n,
            v@.len() == n,
            old(u)@.len() == n,
            old(v)@.len() == n,
            forall|m: int|
                0 <= m < k ==> #[trigger] u@[m] == sides_u(
                    *d,
                    old(u)@,
                    inflow_held@,
                    d.x_of(m),
                    d.y_of(m),
                ),
            forall|m: int| k <= m < n ==> #[trigger] u@[m] == old(u)@[m],
            forall|m: int|
                0 <= m < k ==> #[trigger] v@[m] == sides_v(*d, old(v)@, d.x_of(m), d.y_of(m)),
            forall|m: int| k <= m < n ==> #[trigger] v@[m] == old(v)@[m],
        decreases n - k,
    {
        proof {
            lemma_cell_of_flat(*d, k as int);
        }
        let i = k / ny;
        let j = k % ny;
        if i == 0 {
            let p = d.index(1, j);
            proof {
                lemma_flat_of_cell(*d, 1, j as int);
            }
            if !inflow_held[j] {
                u[k] = u[p];
            }
            v[k] = v[p];
        } else if i == nx - 1 {
            let p = d.index(nx - 2, j);
            proof {
                lemma_flat_of_cell(*d, nx - 2, j as int);
                assert((nx - 2) * ny + j < (nx - 1) * ny + j) by (nonlinear_arith)
                    requires
                        ny > 0,
                ;
            }
            u[k] = u[p];
            v[k] = v[p];
        }
        k += 1;
    }
    proof {
        assert forall|i: int, j: int| d.in_grid(i, j) implies #[trigger] at(*d, u@, i, j)
            == sides_u(*d, old(u)@, inflow_held@, i, j) by {
            lemma_flat_of_cell(*d, i, j);
        }
        assert forall|i: int, j: int| d.in_grid(i, j) implies #[trigger] at(*d, v@, i, j)
            == sides_v(*d, old(v)@, i, j) by {
            lemma_flat_of_cell(*d, i, j);
        }
    }
}

/// Horizontal velocity after the inflow and no-slip wall rules, before the
/// outflow column is filled in.
pub open spec fn inflow_walls_u<T>(d: GridDims, u: Seq<T>, inflow: T, zero: T, i: int, j: int) -> T {
    if j == 0 || j == d.num_y - 1 {
        zero
    } else if i <= 1 {
        inflow
    } else {
        at(d, u, i, j)
    }
}

/// Horizontal velocity after the boundary enforcement: fixed inflow on the two
/// left columns, no slip on the bottom and top rows, zero gradient at the
/// right (outflow) column.
pub open spec fn enforced_u<T>(d: GridDims, u: Seq<T>, inflow: T, zero: T, i: int, j: int) -> T {
    if i == d.num_x - 1 {
        inflow_walls_u(d, u, inflow, zero, d.num_x - 2, j)
    } else {
        inflow_walls_u(d, u, inflow, zero, i, j)
    }
}

/// Vertical velocity after the boundary enforcement: no slip on the bottom and
/// top rows, zero gradient at the right (outflow) column.
pub open spec fn enforced_v<T>(d: GridDims, v: Seq<T>, zero: T, i: int, j: int) -> T {
    if i == d.num_x - 1 {
        walls_v(d, v, zero, d.num_x - 2, j)
    } else {
        walls_v(d, v, zero, i, j)
    }
}

/// The inflow, wall and outflow rules of the boundary enforcement.
fn impose_inflow_walls_outflow<T: Copy>(d: &GridDims, u: &mut [T], v: &mut [T], inflow: T, zero: T)
    requires
        d.wf(),
        old(u)@.len() == d.cells(),
        old(v)@.len() == d.cells(),
    ensures
        final(u)@.len() == d.cells(),
        final(v)@.len() == d.cells(),
        forall|i: int, j: int|
            d.in_grid(i, j) ==> #[trigger] at(*d, final(u)@, i, j) == enforced_u(
                *d,
                old(u)@,
                inflow,
                zero,
                i,
                j,
            ),
        forall|i: int, j: int|
            d.in_grid(i, j) ==> #[trigger] at(*d, final(v)@, i, j) == enforced_v(
                *d,
                old(v)@,
                zero,
                i,
                j,
            ),
{
    let n = d.cell_count();
    let nx = d.num_x;
    let ny = d.num_y;
    let mut k: usize = 0;
    while k < n
        invariant
            d.wf(),
            n == d.cells(),
            nx == d.num_x,
            ny == d.num_y,
            k <= n,
            u@.len() == n,
            v@.len() == n,
            old(u)@.len() == n,
            old(v)@.len() == n,
            forall|m: int|
                0 <= m < k ==> #[trigger] u@[m] == enforced_u(
                    *d,
                    old(u)@,
                    inflow,
                    zero,
                    d.x_of(m),
                    d.y_of(m),
                ),
            forall|m: int| k <= m < n ==> #[trigger] u@[m] == old(u)@[m],
            forall|m: int|
                0 <= m < k ==> #[trigger] v@[m] == enforced_v(
                    *d,
                    old(v)@,
                    zero,
                    d.x_of(m),
                    d.y_of(m),
                ),
            forall|m: int| k <= m < n ==> #[trigger] v@[m] == old(v)@[m],
        decreases n - k,
    {
        proof {
            lemma_cell_of_flat(*d, k as int);
        }
        let i = k / ny;
        let j = k % ny;
        if i == nx - 1 {
            let p = d.index(nx - 2, j);
            proof {
                lemma_flat_of_cell(*d, nx - 2, j as int);
                assert((nx - 2) * ny + j < (nx - 1) * ny + j) by (nonlinear_arith)
                    requires
                        ny > 0,
                ;
            }
            u[k] = u[p];
            v[k] = v[p];
        } else if j == 0 || j == ny - 1 {
            u[k] = zero;
            v[k] = zero;
        } else if i <= 1 {
            u[k] = inflow;
        }
        k += 1;
    }
    proof {
        assert forall|i: int, j: int| d.in_grid(i, j) implies #[trigger] at(*d, u@, i, j)
            == enforced_u(*d, old(u)@, inflow, zero, i, j) by {
            lemma_flat_of_cell(*d, i, j);
        }
        assert forall|i: int, j: int| d.in_grid(i, j) implies #[trigger] at(*d, v@, i, j)
            == enforced_v(*d, old(v)@, zero, i, j) by {
            lemma_flat_of_cell(*d, i, j);
        }
    }
}

/// Horizontal velocity at face `(i, j)` once flow is stopped at solid cells.
pub open spec fn stopped_u<T>(d: GridDims, solid: Seq<bool>, u: Seq<T>, zero: T, i: int, j: int) -> T {
    if u_face_touches_solid(d, solid, i, j) {
        zero
    } else {
        at(d, u, i, j)
    }
}

/// Vertical velocity at face `(i, j)` once flow is stopped at solid cells.
pub open spec fn stopped_v<T>(d: GridDims, solid: Seq<bool>, v: Seq<T>, zero: T, i: int, j: int) -> T {
    if v_face_touches_solid(d, solid, i, j) {
        zero
    } else {
        at(d, v, i, j)
    }
}

/// Sets to `zero` every velocity face that borders a fully solid cell, and
/// leaves every other face as it was.
pub fn stop_flow_at_solid<T: Copy>(d: &GridDims, solid: &[bool], u: &mut [T], v: &mut [T], zero: T)
    requires
        d.wf(),
        solid@.len() == d.cells(),
        old(u)@.len() == d.cells(),
        old(v)@.len() == d.cells(),
    ensures
        final(u)@.len() == d.cells(),
        final(v)@.len() == d.cells(),
        forall|i: int, j: int|
            d.in_grid(i, j) ==> #[trigger] at(*d, final(u)@, i, j) == stopped_u(
                *d,
                solid@,
                old(u)@,
                zero,
                i,
                j,
            ),
        forall|i: int, j: int|
            d.in_grid(i, j) ==> #[trigger] at(*d, final(v)@, i, j) == stopped_v(
                *d,
                solid@,
                old(v)@,
                zero,
                i,
                j,
            ),
{
    let n = d.cell_count();
    let ny = d.num_y;
    let mut k: usize = 0;
    while k < n
        invariant
            d.wf(),
            n == d.cells(),
            ny == d.num_y,
            k <= n,
            solid@.len() == n,
            u@.len() == n,
            v@.len() == n,
            old(u)@.len() == n,
            old(v)@.len() == n,
            forall|q: int|
                0 <= q < n ==> #[trigger] u@[q] == if q < k && u_face_touches_solid(
                    *d,
                    solid@,
                    d.x_of(q),
                    d.y_of(q),
                ) {
                    zero
                } else {
                    old(u)@[q]
                },
            forall|q: int|
                0 <= q < n ==> #[trigger] v@[q] == if q < k && v_face_touches_solid(
                    *d,
                    solid@,
                    d.x_of(q),
                    d.y_of(q),
                ) {
                    zero
                } else {
                    old(v)@[q]
                },
        decreases n - k,
    {
        proof {
            lemma_cell_of_flat(*d, k as int);
        }
        let i = k / ny;
        let j = k % ny;
        let left_solid = i >= 1 && solid[d.index(i - 1, j)];
        let below_solid = j >= 1 && solid[d.index(i, j - 1)];
        if solid[k] || left_solid {
            u[k] = zero;
        }
        if solid[k] || below_solid {
            v[k] = zero;
        }
        k += 1;
    }
    proof {
        assert forall|i: int, j: int| d.in_grid(i, j) implies #[trigger] at(*d, u@, i, j)
            == stopped_u(*d, solid@, old(u)@, zero, i, j) by {
            lemma_flat_of_cell(*d, i, j);
        }
        assert forall|i: int, j: int| d.in_grid(i, j) implies #[trigger] at(*d, v@, i, j)
            == stopped_v(*d, solid@, old(v)@, zero, i, j) by {
            lemma_flat_of_cell(*d, i, j);
        }
    }
}

/// Re-imposes the boundary conditions after advection: `inflow` on the two
/// left columns of the interior rows, `zero` on the bottom and top rows, a copy
/// of the last interior column on the right, and then `zero` on every face
/// that borders a fully solid cell. No slip wins over inflow: an inflow face
/// beside a solid cell carries no flow. Afterwards no velocity face adjoining
/// a cell of openness zero carries flow.
pub fn enforce_boundaries<T: Copy>(
    d: &GridDims,
    solid: &[bool],
    u: &mut [T],
    v: &mut [T],
    inflow: T,
    zero: T,
)
    requires
        d.wf(),
        solid@.len() == d.cells(),
        old(u)@.len() == d.cells(),
        old(v)@.len() == d.cells(),
    ensures
        final(u)@.len() == d.cells(),
        final(v)@.len() == d.cells(),
        forall|i: int, j: int|
            d.in_grid(i, j) ==> #[trigger] at(*d, final(u)@, i, j) == if u_face_touches_solid(
                *d,
                solid@,
                i,
                j,
            ) {
                zero
            } else {
                enforced_u(*d, old(u)@, inflow, zero, i, j)
            },
        forall|i: int, j: int|
            d.in_grid(i, j) ==> #[trigger] at(*d, final(v)@, i, j) == if v_face_touches_solid(
                *d,
                solid@,
                i,
                j,
            ) {
                zero
            } else {
                enforced_v(*d, old(v)@, zero, i, j)
            },
        forall|i: int, j: int|
            d.in_grid(i, j) && u_face_touches_solid(*d, solid@, i, j) ==> #[trigger] at(
                *d,
                final(u)@,
                i,
                j,
            ) == zero,
        forall|i: int, j: int|
            d.in_grid(i, j) && v_face_touches_solid(*d, solid@, i, j) ==> #[trigger] at(
                *d,
                final(v)@,
                i,
                j,
            ) == zero,
{
    impose_inflow_walls_outflow(d, u, v, inflow, zero);
    let ghost mid_u = u@;
    let ghost mid_v = v@;
    stop_flow_at_solid(d, solid, u, v, zero);
    assert forall|i: int, j: int| d.in_grid(i, j) implies #[trigger] at(*d, u@, i, j) == if u_face_touches_solid(
        *d,
        solid@,
        i,
        j,
    ) {
        zero
    } else {
        enforced_u(*d, old(u)@, inflow, zero, i, j)
    } by {
        assert(at(*d, u@, i, j) == stopped_u(*d, solid@, mid_u, zero, i, j));
        assert(at(*d, mid_u, i, j) == enforced_u(*d, old(u)@, inflow, zero, i, j));
    }
    assert forall|i: int, j: int| d.in_grid(i, j) implies #[trigger] at(*d, v@, i, j) == if v_face_touches_solid(
        *d,
        solid@,
        i,
        j,
    ) {
        zero
    } else {
        enforced_v(*d, old(v)@, zero, i, j)
    } by {
        assert(at(*d, v@, i, j) == stopped_v(*d, solid@, mid_v, zero, i, j));
        assert(at(*d, mid_v, i, j) == enforced_v(*d, old(v)@, zero, i, j));
    }
}

/// Whether `(i, j)` lies in the block `x0 <= i < x1`, `y0 <= j < y1`.
pub open spec fn in_block(i: int, j: int, x0: int, x1: int, y0: int, y1: int) -> bool {
    x0 <= i < x1 && y0 <= j < y1
}

/// Sets every cell or face of field `f` in the block `x0 <= i < x1`,
/// `y0 <= j < y1` to `value`, and leaves the rest as it was. Parts of the block
/// outside the grid are ignored.
pub fn fill_block<T: Copy>(
    d: &GridDims,
    f: &mut [T],
    x0: usize,
    x1: usize,
    y0: usize,
    y1: usize,
    value: T,
)
    requires
        d.wf(),
        old(f)@.len() == d.cells(),
    ensures
        final(f)@.len() == d.cells(),
        forall|i: int, j: int|
            d.in_grid(i, j) ==> #[trigger] at(*d, final(f)@, i, j) == if in_block(
                i,
                j,
                x0 as int,
                x1 as int,
                y0 as int,
                y1 as int,
            ) {
                value
            } else {
                at(*d, old(f)@, i, j)
            },
{
    let n = d.cell_count();
    let ny = d.num_y;
    let mut k: usize = 0;
    while k < n
        invariant
            d.wf(),
            n == d.cells(),
            ny == d.num_y,
            k <= n,
            f@.len() == n,
            old(f)@.len() == n,
            forall|q: int|
                0 <= q < n ==> #[trigger] f@[q] == if q < k && in_block(
                    d.x_of(q),
                    d.y_of(q),
                    x0 as int,
                    x1 as int,
                    y0 as int,
                    y1 as int,
                ) {
                    value
                } else {
                    old(f)@[q]
                },
        decreases n - k,
    {
        proof {
            lemma_cell_of_flat(*d, k as int);
        }
        let i = k / ny;
        let j = k % ny;
        if x0 <= i && i < x1 && y0 <= j && j < y1 {
            f[k] = value;
        }
        k += 1;
    }
    proof {
        assert forall|i: int, j: int| d.in_grid(i, j) implies #[trigger] at(*d, f@, i, j)
            == if in_block(i, j, x0 as int, x1 as int, y0 as int, y1 as int) {
            value
        } else {
            at(*d, old(f)@, i, j)
        } by {
            lemma_flat_of_cell(*d, i, j);
        }
    }
}

} // verus!
