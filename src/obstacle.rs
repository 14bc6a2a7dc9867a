use crate::boundary::at;
use crate::cells::{interior, solid_at, u_face_touches_solid, v_face_touches_solid};
use crate::grid::{lemma_cell_of_flat, lemma_flat_of_cell, GridDims};
use vstd::prelude::*;

verus! {

/// The interior cells whose centre lies inside an obstacle: the cells that the
/// obstacle blocks, or makes porous.
pub fn interior_footprint(d: &GridDims, inside: &[bool]) -> (r: Vec<bool>)
    requires
        d.wf(),
        inside@.len() == d.cells(),
    ensures
        r@.len() == d.cells(),
        forall|i: int, j: int|
            d.in_grid(i, j) ==> #[trigger] r@[d.flat(i, j)] == (interior(*d, i, j)
                && inside@[d.flat(i, j)]),
{
    let n = d.cell_count();
    let nx = d.num_x;
    let ny = d.num_y;
    let mut r: Vec<bool> = Vec::with_capacity(n);
    let mut k: usize = 0;
    while k < n
        invariant
            d.wf(),
            inside@.len() == d.cells(),
            n == d.cells(),
            nx == d.num_x,
            ny == d.num_y,
            k <= n,
            r@.len() == k,
            forall|m: int|
                0 <= m < k ==> #[trigger] r@[m] == (interior(*d, d.x_of(m), d.y_of(m))
                    && inside@[m]),
        decreases n - k,
    {
        proof {
            lemma_cell_of_flat(*d, k as int);
        }
        let i = k / ny;
        let j = k % ny;
        r.push(i >= 1 && i < nx - 1 && j >= 1 && j < ny - 1 && inside[k]);
        k += 1;
    }
    assert forall|i: int, j: int| d.in_grid(i, j) implies #[trigger] r@[d.flat(i, j)] == (
    interior(*d, i, j) && inside@[d.flat(i, j)]) by {
        lemma_flat_of_cell(*d, i, j);
    }
    r
}

/// Writes `value` into field `f` over the footprint of an obstacle: the
/// interior cells whose centre lies inside it (`inside`). A solid obstacle
/// writes zero openness and zero dye, a porous one its porosity as openness.
pub fn mark_cells<T: Copy>(d: &GridDims, inside: &[bool], f: &mut [T], value: T)
    requires
        d.wf(),
        inside@.len() == d.cells(),
        old(f)@.len() == d.cells(),
    ensures
        final(f)@.len() == d.cells(),
        forall|i: int, j: int|
            d.in_grid(i, j) ==> #[trigger] at(*d, final(f)@, i, j) == if interior(*d, i, j)
                && inside@[d.flat(i, j)] {
                value
            } else {
                at(*d, old(f)@, i, j)
            },
{
    let n = d.cell_count();
    let nx = d.num_x;
    let ny = d.num_y;
    let mut k: usize = 0;
    while k < n
        invariant
            d.wf(),
            n == d.cells(),
            nx == d.num_x,
            ny == d.num_y,
            k <= n,
            inside@.len() == n,
            f@.len() == n,
            old(f)@.len() == n,
            forall|q: int|
                0 <= q < n ==> #[trigger] f@[q] == if q < k && interior(*d, d.x_of(q), d.y_of(q))
                    && inside@[q] {
                    value
                } else {
                    old(f)@[q]
                },
        decreases n - k,
    {
        proof {
            lemma_cell_of_flat(*d, k as int);
        }
        let i = k / ny;
        let j = k % ny;
        if i >= 1 && i < nx - 1 && j >= 1 && j < ny - 1 && inside[k] {
            f[k] = value;
        }
        k += 1;
    }
    proof {
        assert forall|i: int, j: int| d.in_grid(i, j) implies #[trigger] at(*d, f@, i, j) == if interior(
            *d,
            i,
            j,
        ) && inside@[d.flat(i, j)] {
            value
        } else {
            at(*d, old(f)@, i, j)
        } by {
            lemma_flat_of_cell(*d, i, j);
        }
    }
}

/// Horizontal velocity at face `(i, j)` after the no-slip correction.
pub open spec fn no_slip_u<T>(
    d: GridDims,
    solid: Seq<bool>,
    porous: bool,
    inside_u: Seq<bool>,
    u: Seq<T>,
    zero: T,
    i: int,
    j: int,
) -> T {
    if u_face_touches_solid(d, solid, i, j) || (!porous && inside_u[d.flat(i, j)]) {
        zero
    } else {
        at(d, u, i, j)
    }
}

/// Vertical velocity at face `(i, j)` after the no-slip correction.
pub open spec fn no_slip_v<T>(
    d: GridDims,
    solid: Seq<bool>,
    porous: bool,
    inside_v: Seq<bool>,
    v: Seq<T>,
    zero: T,
    i: int,
    j: int,
) -> T {
    if v_face_touches_solid(d, solid, i, j) || (!porous && inside_v[d.flat(i, j)]) {
        zero
    } else {
        at(d, v, i, j)
    }
}

/// No-slip correction after an obstacle is marked: every velocity face that
/// borders a fully solid cell, or that lies geometrically inside a solid
/// obstacle (`inside_u`, `inside_v`), is set to `zero`; every other face keeps
/// its value. The faces inside a porous obstacle keep their flow, which the
/// porous medium damps. Afterwards no velocity face adjoining a cell of
/// openness zero carries flow.
pub fn enforce_no_slip<T: Copy>(
    d: &GridDims,
    solid: &[bool],
    porous: bool,
    inside_u: &[bool],
    inside_v: &[bool],
    u: &mut [T],
    v: &mut [T],
    zero: T,
)
    requires
        d.wf(),
        solid@.len() == d.cells(),
        inside_u@.len() == d.cells(),
        inside_v@.len() == d.cells(),
        old(u)@.len() == d.cells(),
        old(v)@.len() == d.cells(),
    ensures
        final(u)@.len() == d.cells(),
        final(v)@.len() == d.cells(),
        forall|i: int, j: int|
            d.in_grid(i, j) ==> #[trigger] at(*d, final(u)@, i, j) == no_slip_u(
                *d,
                solid@,
                porous,
                inside_u@,
                old(u)@,
                zero,
                i,
                j,
            ),
        forall|i: int, j: int|
            d.in_grid(i, j) ==> #[trigger] at(*d, final(v)@, i, j) == no_slip_v(
                *d,
                solid@,
                porous,
                inside_v@,
                old(v)@,
                zero,
                i,
                j,
            ),
        forall|i: int, j: int|
            d.in_grid(i, j) && u_face_touches_solid(*d, solid@, i, j) ==> #[trigger] at(
                *d,
                final(u)@,
                i,
                j,
            ) == zero,
        forall|i: int, j: int|
            d.in_grid(i, j) && v_face_touches_solid(*d, solid@, i, j) ==> #[trigger] at(
                *d,
                final(v)@,
                i,
                j,
            ) == zero,
{
    let n = d.cell_count();
    let ny = d.num_y;
    let mut k: usize = 0;
    while k < n
        invariant
            d.wf(),
            n == d.cells(),
            ny == d.num_y,
            k <= n,
            solid@.len() == n,
            inside_u@.len() == n,
            inside_v@.len() == n,
            u@.len() == n,
            v@.len() == n,
            old(u)@.len() == n,
            old(v)@.len() == n,
            forall|q: int|
                0 <= q < n ==> #[trigger] u@[q] == if q < k && (u_face_touches_solid(
                    *d,
                    solid@,
                    d.x_of(q),
                    d.y_of(q),
                ) || (!porous && inside_u@[q])) {
                    zero
                } else {
                    old(u)@[q]
                },
            forall|q: int|
                0 <= q < n ==> #[trigger] v@[q] == if q < k && (v_face_touches_solid(
                    *d,
                    solid@,
                    d.x_of(q),
                    d.y_of(q),
                ) || (!porous && inside_v@[q])) {
                    zero
                } else {
                    old(v)@[q]
                },
        decreases n - k,
    {
        proof {
            lemma_cell_of_flat(*d, k as int);
        }
        let i = k / ny;
        let j = k % ny;
        let left_solid = i >= 1 && solid[d.index(i - 1, j)];
        let below_solid = j >= 1 && solid[d.index(i, j - 1)];
        if solid[k] || left_solid || (!porous && inside_u[k]) {
            u[k] = zero;
        }
        if solid[k] || below_solid || (!porous && inside_v[k]) {
            v[k] = zero;
        }
        k += 1;
    }
    proof {
        assert forall|i: int, j: int| d.in_grid(i, j) implies #[trigger] at(*d, u@, i, j)
            == no_slip_u(*d, solid@, porous, inside_u@, old(u)@, zero, i, j) by {
            lemma_flat_of_cell(*d, i, j);
        }
        assert forall|i: int, j: int| d.in_grid(i, j) implies #[trigger] at(*d, v@, i, j)
            == no_slip_v(*d, solid@, porous, inside_v@, old(v)@, zero, i, j) by {
            lemma_flat_of_cell(*d, i, j);
        }
    }
}

/// Whether `(i, j)` is in the footprint of an obstacle: an interior cell whose
/// centre lies inside it.
pub open spec fn in_footprint(d: GridDims, inside: Seq<bool>, i: int, j: int) -> bool {
    interior(d, i, j) && inside[d.flat(i, j)]
}

/// Openness at cell `(i, j)` after an obstacle is marked: a solid obstacle
/// writes `zero` over its footprint, a porous one its `porosity`.
pub open spec fn marked_openness<T>(
    d: GridDims,
    inside: Seq<bool>,
    s: Seq<T>,
    porous: bool,
    porosity: T,
    zero: T,
    i: int,
    j: int,
) -> T {
    if in_footprint(d, inside, i, j) {
        if porous {
            porosity
        } else {
            zero
        }
    } else {
        at(d, s, i, j)
    }
}

/// Dye at cell `(i, j)` after an obstacle is marked: a solid obstacle clears
/// the dye over its footprint, a porous one leaves it.
pub open spec fn marked_dye<T>(
    d: GridDims,
    inside: Seq<bool>,
    m: Seq<T>,
    porous: bool,
    zero: T,
    i: int,
    j: int,
) -> T {
    if in_footprint(d, inside, i, j) && !porous {
        zero
    } else {
        at(d, m, i, j)
    }
}

/// Marks an obstacle's footprint (`inside`: the cells whose centre it
/// contains) in the openness `s` and the dye `m`. A porous obstacle, one that
/// is partly open, writes its `porosity` as openness; a solid one writes
/// `zero` openness and clears the dye.
pub fn mark_obstacle<T: Copy>(
    d: &GridDims,
    inside: &[bool],
    porous: bool,
    porosity: T,
    zero: T,
    s: &mut [T],
    m: &mut [T],
)
    requires
        d.wf(),
        inside@.len() == d.cells(),
        old(s)@.len() == d.cells(),
        old(m)@.len() == d.cells(),
    ensures
        final(s)@.len() == d.cells(),
        final(m)@.len() == d.cells(),
        forall|i: int, j: int|
            d.in_grid(i, j) ==> #[trigger] at(*d, final(s)@, i, j) == marked_openness(
                *d,
                inside@,
                old(s)@,
                porous,
                porosity,
                zero,
                i,
                j,
            ),
        forall|i: int, j: int|
            d.in_grid(i, j) ==> #[trigger] at(*d, final(m)@, i, j) == marked_dye(
                *d,
                inside@,
                old(m)@,
                porous,
                zero,
                i,
                j,
            ),
{
    if porous {
        mark_cells(d, inside, s, porosity);
    } else {
        mark_cells(d, inside, s, zero);
        mark_cells(d, inside, m, zero);
    }
}

/// Full blockage: a porous obstacle of porosity zero marks the same openness
/// as a solid obstacle; and once a cell of the footprint is fully solid, the
/// no-slip correction stops the flow on all four of its faces, for a porous
/// obstacle as for a solid one, whatever the velocity and the geometry were.
pub proof fn lemma_blocked_cell_stops_flow<T>(
    d: GridDims,
    inside: Seq<bool>,
    s: Seq<T>,
    solid: Seq<bool>,
    porous: bool,
    inside_u: Seq<bool>,
    inside_v: Seq<bool>,
    u: Seq<T>,
    v: Seq<T>,
    zero: T,
    i: int,
    j: int,
)
    requires
        d.wf(),
        solid.len() == d.cells(),
        interior(d, i, j),
        solid_at(d, solid, i, j),
    ensures
        marked_openness(d, inside, s, true, zero, zero, i, j) == marked_openness(
            d,
            inside,
            s,
            false,
            zero,
            zero,
            i,
            j,
        ),
        no_slip_u(d, solid, porous, inside_u, u, zero, i, j) == zero,
        no_slip_u(d, solid, porous, inside_u, u, zero, i + 1, j) == zero,
        no_slip_v(d, solid, porous, inside_v, v, zero, i, j) == zero,
        no_slip_v(d, solid, porous, inside_v, v, zero, i, j + 1) == zero,
{
}

/// Porosity no-op: a porous obstacle whose porosity equals the openness
/// already at a cell (a fully open obstacle over open fluid) leaves that
/// openness as it was, and the no-slip correction leaves every face that
/// borders no solid cell as it was, inside the obstacle or not.
pub proof fn lemma_open_porous_obstacle_keeps_fields<T>(
    d: GridDims,
    inside: Seq<bool>,
    s: Seq<T>,
    solid: Seq<bool>,
    inside_u: Seq<bool>,
    inside_v: Seq<bool>,
    u: Seq<T>,
    v: Seq<T>,
    porosity: T,
    zero: T,
    i: int,
    j: int,
)
    requires
        d.wf(),
        d.in_grid(i, j),
        at(d, s, i, j) == porosity,
    ensures
        marked_openness(d, inside, s, true, porosity, zero, i, j) == at(d, s, i, j),
        !u_face_touches_solid(d, solid, i, j) ==> no_slip_u(
            d,
            solid,
            true,
            inside_u,
            u,
            zero,
            i,
            j,
        ) == at(d, u, i, j),
        !v_face_touches_solid(d, solid, i, j) ==> no_slip_v(
            d,
            solid,
            true,
            inside_v,
            v,
            zero,
            i,
            j,
        ) == at(d, v, i, j),
{
}

} // verus!
