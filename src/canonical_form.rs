//! Proof that steps and turns keep positions in canonical form: within the
//! bounds of their root quad, facing a cell of that quad.

use vstd::prelude::*;

use crate::grid::{left_of, right_of, CellPos, Dir};
use crate::movement::{
    adjacent, canonical, closest_mid_axis, closest_mid_axis_among, closest_triangle, moved_forward, pole_at,
    rebased, resolution_ok, strictly_inside, turned_left, turned_right, within_root, pentagon_at,
};
use crate::triangles::triangle;

verus! {

/// One of the facings next to `dir`, or `dir` itself, points from `pos` at
/// a cell within its root quad.
pub open spec fn near_facing(pos: CellPos, dir: Dir, rx: int, ry: int) -> bool {
    within_root(adjacent(pos, dir), rx, ry) || within_root(adjacent(pos, Dir { index: left_of(dir.index) }), rx, ry)
        || within_root(adjacent(pos, Dir { index: right_of(dir.index) }), rx, ry)
}

/// Rebasing keeps canonical form on the edge `x == 0` next to the north pole.
#[verifier::spinoff_prover]
#[verifier::rlimit(50)]
proof fn lemma_rebased_canonical_edge_x0_north(q: CellPos, e: Dir, rx: int, ry: int)
    requires
        resolution_ok(rx, ry),
        within_root(q, rx, ry),
        e.at_hex_edge(),
        q.x == 0,
        0 < q.y < rx,
    ensures
        canonical(rebased(q, e, rx, ry).0, rebased(q, e, rx, ry).1, rx, ry),
{
    reveal(rebased);
    reveal(triangle);
    reveal(closest_triangle);
    if e.index == 0 {
    } else if e.index == 2 {
    } else if e.index == 4 {
    } else if e.index == 6 {
    } else if e.index == 8 {
    } else {
    }
}

/// Rebasing keeps canonical form on the edge `x == 0` away from the north pole.
#[verifier::spinoff_prover]
#[verifier::rlimit(50)]
proof fn lemma_rebased_canonical_edge_x0_south(q: CellPos, e: Dir, rx: int, ry: int)
    requires
        resolution_ok(rx, ry),
        within_root(q, rx, ry),
        e.at_hex_edge(),
        q.x == 0,
        rx < q.y < ry,
    ensures
        canonical(rebased(q, e, rx, ry).0, rebased(q, e, rx, ry).1, rx, ry),
{
    reveal(rebased);
    reveal(triangle);
    reveal(closest_triangle);
    if e.index == 0 {
    } else if e.index == 2 {
    } else if e.index == 4 {
    } else if e.index == 6 {
    } else if e.index == 8 {
    } else {
    }
}

/// Rebasing keeps canonical form on the edge `y == 0`.
#[verifier::spinoff_prover]
#[verifier::rlimit(50)]
proof fn lemma_rebased_canonical_edge_y0(q: CellPos, e: Dir, rx: int, ry: int)
    requires
        resolution_ok(rx, ry),
        within_root(q, rx, ry),
        e.at_hex_edge(),
        q.y == 0,
        0 < q.x < rx,
    ensures
        canonical(rebased(q, e, rx, ry).0, rebased(q, e, rx, ry).1, rx, ry),
{
    reveal(rebased);
    reveal(triangle);
    reveal(closest_triangle);
    if e.index == 0 {
    } else if e.index == 2 {
    } else if e.index == 4 {
    } else if e.index == 6 {
    } else if e.index == 8 {
    } else {
    }
}

/// Rebasing keeps canonical form on the edge `x == rx` away from the south pole.
#[verifier::spinoff_prover]
#[verifier::rlimit(50)]
proof fn lemma_rebased_canonical_edge_xr_north(q: CellPos, e: Dir, rx: int, ry: int)
    requires
        resolution_ok(rx, ry),
        within_root(q, rx, ry),
        e.at_hex_edge(),
        q.x == rx,
        0 < q.y < rx,
    ensures
        canonical(rebased(q, e, rx, ry).0, rebased(q, e, rx, ry).1, rx, ry),
{
    reveal(rebased);
    reveal(triangle);
    reveal(closest_triangle);
    if e.index == 0 {
    } else if e.index == 2 {
    } else if e.index == 4 {
    } else if e.index == 6 {
    } else if e.index == 8 {
    } else {
    }
}

/// Rebasing keeps canonical form on the edge `x == rx` next to the south pole.
#[verifier::spinoff_prover]
#[verifier::rlimit(50)]
proof fn lemma_rebased_canonical_edge_xr_south(q: CellPos, e: Dir, rx: int, ry: int)
    requires
        resolution_ok(rx, ry),
        within_root(q, rx, ry),
        e.at_hex_edge(),
        q.x == rx,
        rx < q.y < ry,
    ensures
        canonical(rebased(q, e, rx, ry).0, rebased(q, e, rx, ry).1, rx, ry),
{
    reveal(rebased);
    reveal(triangle);
    reveal(closest_triangle);
    if e.index == 0 {
    } else if e.index == 2 {
    } else if e.index == 4 {
    } else if e.index == 6 {
    } else if e.index == 8 {
    } else {
    }
}

/// Rebasing keeps canonical form on the edge `y == ry`.
#[verifier::spinoff_prover]
#[verifier::rlimit(50)]
proof fn lemma_rebased_canonical_edge_yr(q: CellPos, e: Dir, rx: int, ry: int)
    requires
        resolution_ok(rx, ry),
        within_root(q, rx, ry),
        e.at_hex_edge(),
        q.y == ry,
        0 < q.x < rx,
    ensures
        canonical(rebased(q, e, rx, ry).0, rebased(q, e, rx, ry).1, rx, ry),
{
    reveal(rebased);
    reveal(triangle);
    reveal(closest_triangle);
    if e.index == 0 {
    } else if e.index == 2 {
    } else if e.index == 4 {
    } else if e.index == 6 {
    } else if e.index == 8 {
    } else {
    }
}

/// Which frame a facing selects on this pentagon.
#[verifier::spinoff_prover]
#[verifier::rlimit(100)]
proof fn lemma_mid_axis_north_pole(d: int, rx: int, ry: int)
    requires
        resolution_ok(rx, ry),
    ensures
        d == 0 ==> closest_mid_axis(0, 0, d, rx) == 0,
        d == 2 ==> closest_mid_axis(0, 0, d, rx) == 0,
        d == 4 ==> closest_mid_axis(0, 0, d, rx) == 0,
        d == 6 ==> closest_mid_axis(0, 0, d, rx) == 0,
        d == 8 ==> closest_mid_axis(0, 0, d, rx) == 0,
        d == 10 ==> closest_mid_axis(0, 0, d, rx) == 0,
{
    if d == 0 {
        assert(closest_mid_axis(0, 0, d, rx) == 0) by {
            reveal(triangle);
            reveal(closest_mid_axis);
            assert(closest_mid_axis_among(0, 0, d, rx, 0) == 12);
            assert(closest_mid_axis_among(0, 0, d, rx, 1) == 0);
            assert(closest_mid_axis_among(0, 0, d, rx, 2) == 0);
            assert(closest_mid_axis_among(0, 0, d, rx, 3) == 0);
            assert(closest_mid_axis_among(0, 0, d, rx, 4) == 0);
            assert(closest_mid_axis_among(0, 0, d, rx, 5) == 0);
            assert(closest_mid_axis_among(0, 0, d, rx, 6) == 0);
            assert(closest_mid_axis_among(0, 0, d, rx, 7) == 0);
            assert(closest_mid_axis_among(0, 0, d, rx, 8) == 0);
            assert(closest_mid_axis_among(0, 0, d, rx, 9) == 0);
            assert(closest_mid_axis_among(0, 0, d, rx, 10) == 0);
            assert(closest_mid_axis_among(0, 0, d, rx, 11) == 0);
            assert(closest_mid_axis_among(0, 0, d, rx, 12) == 0);
        }
    }
    if d == 2 {
        assert(closest_mid_axis(0, 0, d, rx) == 0) by {
            reveal(triangle);
            reveal(closest_mid_axis);
            assert(closest_mid_axis_among(0, 0, d, rx, 0) == 12);
            assert(closest_mid_axis_among(0, 0, d, rx, 1) == 0);
            assert(closest_mid_axis_among(0, 0, d, rx, 2) == 0);
            assert(closest_mid_axis_among(0, 0, d, rx, 3) == 0);
            assert(closest_mid_axis_among(0, 0, d, rx, 4) == 0);
            assert(closest_mid_axis_among(0, 0, d, rx, 5) == 0);
            assert(closest_mid_axis_among(0, 0, d, rx, 6) == 0);
            assert(closest_mid_axis_among(0, 0, d, rx, 7) == 0);
            assert(closest_mid_axis_among(0, 0, d, rx, 8) == 0);
            assert(closest_mid_axis_among(0, 0, d, rx, 9) == 0);
            assert(closest_mid_axis_among(0, 0, d, rx, 10) == 0);
            assert(closest_mid_axis_among(0, 0, d, rx, 11) == 0);
            assert(closest_mid_axis_among(0, 0, d, rx, 12) == 0);
        }
    }
    if d == 4 {
        assert(closest_mid_axis(0, 0, d, rx) == 0) by {
            reveal(triangle);
            reveal(closest_mid_axis);
            assert(closest_mid_axis_among(0, 0, d, rx, 0) == 12);
            assert(closest_mid_axis_among(0, 0, d, rx, 1) == 0);
            assert(closest_mid_axis_among(0, 0, d, rx, 2) == 0);
            assert(closest_mid_axis_among(0, 0, d, rx, 3) == 0);
            assert(closest_mid_axis_among(0, 0, d, rx, 4) == 0);
            assert(closest_mid_axis_among(0, 0, d, rx, 5) == 0);
            assert(closest_mid_axis_among(0, 0, d, rx, 6) == 0);
            assert(closest_mid_axis_among(0, 0, d, rx, 7) == 0);
            assert(closest_mid_axis_among(0, 0, d, rx, 8) == 0);
            assert(closest_mid_axis_among(0, 0, d, rx, 9) == 0);
            assert(closest_mid_axis_among(0, 0, d, rx, 10) == 0);
            assert(closest_mid_axis_among(0, 0, d, rx, 11) == 0);
            assert(closest_mid_axis_among(0, 0, d, rx, 12) == 0);
        }
    }
    if d == 6 {
        assert(closest_mid_axis(0, 0, d, rx) == 0) by {
            reveal(triangle);
            reveal(closest_mid_axis);
            assert(closest_mid_axis_among(0, 0, d, rx, 0) == 12);
            assert(closest_mid_axis_among(0, 0, d, rx, 1) == 0);
            assert(closest_mid_axis_among(0, 0, d, rx, 2) == 0);
            assert(closest_mid_axis_among(0, 0, d, rx, 3) == 0);
            assert(closest_mid_axis_among(0, 0, d, rx, 4) == 0);
            assert(closest_mid_axis_among(0, 0, d, rx, 5) == 0);
            assert(closest_mid_axis_among(0, 0, d, rx, 6) == 0);
            assert(closest_mid_axis_among(0, 0, d, rx, 7) == 0);
            assert(closest_mid_axis_among(0, 0, d, rx, 8) == 0);
            assert(closest_mid_axis_among(0, 0, d, rx, 9) == 0);
            assert(closest_mid_axis_among(0, 0, d, rx, 10) == 0);
            assert(closest_mid_axis_among(0, 0, d, rx, 11) == 0);
            assert(closest_mid_axis_among(0, 0, d, rx, 12) == 0);
        }
    }
    if d == 8 {
        assert(closest_mid_axis(0, 0, d, rx) == 0) by {
            reveal(triangle);
            reveal(closest_mid_axis);
            assert(closest_mid_axis_among(0, 0, d, rx, 0) == 12);
            assert(closest_mid_axis_among(0, 0, d, rx, 1) == 0);
            assert(closest_mid_axis_among(0, 0, d, rx, 2) == 0);
            assert(closest_mid_axis_among(0, 0, d, rx, 3) == 0);
            assert(closest_mid_axis_among(0, 0, d, rx, 4) == 0);
            assert(closest_mid_axis_among(0, 0, d, rx, 5) == 0);
            assert(closest_mid_axis_among(0, 0, d, rx, 6) == 0);
            assert(closest_mid_axis_among(0, 0, d, rx, 7) == 0);
            assert(closest_mid_axis_among(0, 0, d, rx, 8) == 0);
            assert(closest_mid_axis_among(0, 0, d, rx, 9) == 0);
            assert(closest_mid_axis_among(0, 0, d, rx, 10) == 0);
            assert(closest_mid_axis_among(0, 0, d, rx, 11) == 0);
            assert(closest_mid_axis_among(0, 0, d, rx, 12) == 0);
        }
    }
    if d == 10 {
        assert(closest_mid_axis(0, 0, d, rx) == 0) by {
            reveal(triangle);
            reveal(closest_mid_axis);
            assert(closest_mid_axis_among(0, 0, d, rx, 0) == 12);
            assert(closest_mid_axis_among(0, 0, d, rx, 1) == 0);
            assert(closest_mid_axis_among(0, 0, d, rx, 2) == 0);
            assert(closest_mid_axis_among(0, 0, d, rx, 3) == 0);
            assert(closest_mid_axis_among(0, 0, d, rx, 4) == 0);
            assert(closest_mid_axis_among(0, 0, d, rx, 5) == 0);
            assert(closest_mid_axis_among(0, 0, d, rx, 6) == 0);
            assert(closest_mid_axis_among(0, 0, d, rx, 7) == 0);
            assert(closest_mid_axis_among(0, 0, d, rx, 8) == 0);
            assert(closest_mid_axis_among(0, 0, d, rx, 9) == 0);
            assert(closest_mid_axis_among(0, 0, d, rx, 10) == 0);
            assert(closest_mid_axis_among(0, 0, d, rx, 11) == 0);
            assert(closest_mid_axis_among(0, 0, d, rx, 12) == 0);
        }
    }
}

/// Rebasing keeps canonical form on the north pole.
#[verifier::spinoff_prover]
#[verifier::rlimit(50)]
proof fn lemma_rebased_canonical_north_pole(q: CellPos, e: Dir, rx: int, ry: int)
    requires
        resolution_ok(rx, ry),
        within_root(q, rx, ry),
        e.at_hex_edge(),
        near_facing(q, e, rx, ry),
        q.x == 0,
        q.y == 0,
    ensures
        canonical(rebased(q, e, rx, ry).0, rebased(q, e, rx, ry).1, rx, ry),
{
    reveal(rebased);
    reveal(triangle);
    lemma_mid_axis_north_pole(e.index as int, rx, ry);
    if e.index == 0 {
    } else if e.index == 2 {
    } else if e.index == 4 {
    } else if e.index == 6 {
    } else if e.index == 8 {
    } else {
    }
}

/// Which frame a facing selects on this pentagon.
#[verifier::spinoff_prover]
#[verifier::rlimit(100)]
proof fn lemma_mid_axis_upper_west(d: int, rx: int, ry: int)
    requires
        resolution_ok(rx, ry),
    ensures
        d == 0 ==> closest_mid_axis(0, rx, d, rx) == 4,
        d == 2 ==> closest_mid_axis(0, rx, d, rx) == 2,
        d == 4 ==> closest_mid_axis(0, rx, d, rx) == 2,
        d == 6 ==> closest_mid_axis(0, rx, d, rx) == 2,
        d == 8 ==> closest_mid_axis(0, rx, d, rx) == 6,
        d == 10 ==> closest_mid_axis(0, rx, d, rx) == 6,
{
    if d == 0 {
        assert(closest_mid_axis(0, rx, d, rx) == 4) by {
            reveal(triangle);
            reveal(closest_mid_axis);
            assert(closest_mid_axis_among(0, rx, d, rx, 0) == 12);
            assert(closest_mid_axis_among(0, rx, d, rx, 1) == 12);
            assert(closest_mid_axis_among(0, rx, d, rx, 2) == 12);
            assert(closest_mid_axis_among(0, rx, d, rx, 3) == 2);
            assert(closest_mid_axis_among(0, rx, d, rx, 4) == 2);
            assert(closest_mid_axis_among(0, rx, d, rx, 5) == 4);
            assert(closest_mid_axis_among(0, rx, d, rx, 6) == 4);
            assert(closest_mid_axis_among(0, rx, d, rx, 7) == 4);
            assert(closest_mid_axis_among(0, rx, d, rx, 8) == 4);
            assert(closest_mid_axis_among(0, rx, d, rx, 9) == 4);
            assert(closest_mid_axis_among(0, rx, d, rx, 10) == 4);
            assert(closest_mid_axis_among(0, rx, d, rx, 11) == 4);
            assert(closest_mid_axis_among(0, rx, d, rx, 12) == 4);
        }
    }
    if d == 2 {
        assert(closest_mid_axis(0, rx, d, rx) == 2) by {
            reveal(triangle);
            reveal(closest_mid_axis);
            assert(closest_mid_axis_among(0, rx, d, rx, 0) == 12);
            assert(closest_mid_axis_among(0, rx, d, rx, 1) == 12);
            assert(closest_mid_axis_among(0, rx, d, rx, 2) == 12);
            assert(closest_mid_axis_among(0, rx, d, rx, 3) == 2);
            assert(closest_mid_axis_among(0, rx, d, rx, 4) == 2);
            assert(closest_mid_axis_among(0, rx, d, rx, 5) == 2);
            assert(closest_mid_axis_among(0, rx, d, rx, 6) == 2);
            assert(closest_mid_axis_among(0, rx, d, rx, 7) == 2);
            assert(closest_mid_axis_among(0, rx, d, rx, 8) == 2);
            assert(closest_mid_axis_among(0, rx, d, rx, 9) == 2);
            assert(closest_mid_axis_among(0, rx, d, rx, 10) == 2);
            assert(closest_mid_axis_among(0, rx, d, rx, 11) == 2);
            assert(closest_mid_axis_among(0, rx, d, rx, 12) == 2);
        }
    }
    if d == 4 {
        assert(closest_mid_axis(0, rx, d, rx) == 2) by {
            reveal(triangle);
            reveal(closest_mid_axis);
            assert(closest_mid_axis_among(0, rx, d, rx, 0) == 12);
            assert(closest_mid_axis_among(0, rx, d, rx, 1) == 12);
            assert(closest_mid_axis_among(0, rx, d, rx, 2) == 12);
            assert(closest_mid_axis_among(0, rx, d, rx, 3) == 2);
            assert(closest_mid_axis_among(0, rx, d, rx, 4) == 2);
            assert(closest_mid_axis_among(0, rx, d, rx, 5) == 2);
            assert(closest_mid_axis_among(0, rx, d, rx, 6) == 2);
            assert(closest_mid_axis_among(0, rx, d, rx, 7) == 2);
            assert(closest_mid_axis_among(0, rx, d, rx, 8) == 2);
            assert(closest_mid_axis_among(0, rx, d, rx, 9) == 2);
            assert(closest_mid_axis_among(0, rx, d, rx, 10) == 2);
            assert(closest_mid_axis_among(0, rx, d, rx, 11) == 2);
            assert(closest_mid_axis_among(0, rx, d, rx, 12) == 2);
        }
    }
    if d == 6 {
        assert(closest_mid_axis(0, rx, d, rx) == 2) by {
            reveal(triangle);
            reveal(closest_mid_axis);
            assert(closest_mid_axis_among(0, rx, d, rx, 0) == 12);
            assert(closest_mid_axis_among(0, rx, d, rx, 1) == 12);
            assert(closest_mid_axis_among(0, rx, d, rx, 2) == 12);
            assert(closest_mid_axis_among(0, rx, d, rx, 3) == 2);
            assert(closest_mid_axis_among(0, rx, d, rx, 4) == 2);
            assert(closest_mid_axis_among(0, rx, d, rx, 5) == 2);
            assert(closest_mid_axis_among(0, rx, d, rx, 6) == 2);
            assert(closest_mid_axis_among(0, rx, d, rx, 7) == 2);
            assert(closest_mid_axis_among(0, rx, d, rx, 8) == 2);
            assert(closest_mid_axis_among(0, rx, d, rx, 9) == 2);
            assert(closest_mid_axis_among(0, rx, d, rx, 10) == 2);
            assert(closest_mid_axis_among(0, rx, d, rx, 11) == 2);
            assert(closest_mid_axis_among(0, rx, d, rx, 12) == 2);
        }
    }
    if d == 8 {
        assert(closest_mid_axis(0, rx, d, rx) == 6) by {
            reveal(triangle);
            reveal(closest_mid_axis);
            assert(closest_mid_axis_among(0, rx, d, rx, 0) == 12);
            assert(closest_mid_axis_among(0, rx, d, rx, 1) == 12);
            assert(closest_mid_axis_among(0, rx, d, rx, 2) == 12);
            assert(closest_mid_axis_among(0, rx, d, rx, 3) == 2);
            assert(closest_mid_axis_among(0, rx, d, rx, 4) == 2);
            assert(closest_mid_axis_among(0, rx, d, rx, 5) == 2);
            assert(closest_mid_axis_among(0, rx, d, rx, 6) == 2);
            assert(closest_mid_axis_among(0, rx, d, rx, 7) == 6);
            assert(closest_mid_axis_among(0, rx, d, rx, 8) == 6);
            assert(closest_mid_axis_among(0, rx, d, rx, 9) == 6);
            assert(closest_mid_axis_among(0, rx, d, rx, 10) == 6);
            assert(closest_mid_axis_among(0, rx, d, rx, 11) == 6);
            assert(closest_mid_axis_among(0, rx, d, rx, 12) == 6);
        }
    }
    if d == 10 {
        assert(closest_mid_axis(0, rx, d, rx) == 6) by {
            reveal(triangle);
            reveal(closest_mid_axis);
            assert(closest_mid_axis_among(0, rx, d, rx, 0) == 12);
            assert(closest_mid_axis_among(0, rx, d, rx, 1) == 12);
            assert(closest_mid_axis_among(0, rx, d, rx, 2) == 12);
            assert(closest_mid_axis_among(0, rx, d, rx, 3) == 2);
            assert(closest_mid_axis_among(0, rx, d, rx, 4) == 2);
            assert(closest_mid_axis_among(0, rx, d, rx, 5) == 4);
            assert(closest_mid_axis_among(0, rx, d, rx, 6) == 4);
            assert(closest_mid_axis_among(0, rx, d, rx, 7) == 6);
            assert(closest_mid_axis_among(0, rx, d, rx, 8) == 6);
            assert(closest_mid_axis_among(0, rx, d, rx, 9) == 6);
            assert(closest_mid_axis_among(0, rx, d, rx, 10) == 6);
            assert(closest_mid_axis_among(0, rx, d, rx, 11) == 6);
            assert(closest_mid_axis_among(0, rx, d, rx, 12) == 6);
        }
    }
}

/// Rebasing keeps canonical form on the upper pentagon on `x == 0`.
#[verifier::spinoff_prover]
#[verifier::rlimit(50)]
proof fn lemma_rebased_canonical_upper_west(q: CellPos, e: Dir, rx: int, ry: int)
    requires
        resolution_ok(rx, ry),
        within_root(q, rx, ry),
        e.at_hex_edge(),
        q.x == 0,
        q.y == rx,
    ensures
        canonical(rebased(q, e, rx, ry).0, rebased(q, e, rx, ry).1, rx, ry),
{
    reveal(rebased);
    reveal(triangle);
    lemma_mid_axis_upper_west(e.index as int, rx, ry);
    if e.index == 0 {
    } else if e.index == 2 {
    } else if e.index == 4 {
    } else if e.index == 6 {
    } else if e.index == 8 {
    } else {
    }
}

/// Which frame a facing selects on this pentagon.
#[verifier::spinoff_prover]
#[verifier::rlimit(100)]
proof fn lemma_mid_axis_lower_west(d: int, rx: int, ry: int)
    requires
        resolution_ok(rx, ry),
    ensures
        d == 0 ==> closest_mid_axis(0, ry, d, rx) == 10,
        d == 2 ==> closest_mid_axis(0, ry, d, rx) == 8,
        d == 4 ==> closest_mid_axis(0, ry, d, rx) == 8,
        d == 6 ==> closest_mid_axis(0, ry, d, rx) == 8,
        d == 8 ==> closest_mid_axis(0, ry, d, rx) == 8,
        d == 10 ==> closest_mid_axis(0, ry, d, rx) == 10,
{
    if d == 0 {
        assert(closest_mid_axis(0, ry, d, rx) == 10) by {
            reveal(triangle);
            reveal(closest_mid_axis);
            assert(closest_mid_axis_among(0, ry, d, rx, 0) == 12);
            assert(closest_mid_axis_among(0, ry, d, rx, 1) == 12);
            assert(closest_mid_axis_among(0, ry, d, rx, 2) == 12);
            assert(closest_mid_axis_among(0, ry, d, rx, 3) == 12);
            assert(closest_mid_axis_among(0, ry, d, rx, 4) == 12);
            assert(closest_mid_axis_among(0, ry, d, rx, 5) == 12);
            assert(closest_mid_axis_among(0, ry, d, rx, 6) == 12);
            assert(closest_mid_axis_among(0, ry, d, rx, 7) == 12);
            assert(closest_mid_axis_among(0, ry, d, rx, 8) == 12);
            assert(closest_mid_axis_among(0, ry, d, rx, 9) == 8);
            assert(closest_mid_axis_among(0, ry, d, rx, 10) == 8);
            assert(closest_mid_axis_among(0, ry, d, rx, 11) == 10);
            assert(closest_mid_axis_among(0, ry, d, rx, 12) == 10);
        }
    }
    if d == 2 {
        assert(closest_mid_axis(0, ry, d, rx) == 8) by {
            reveal(triangle);
            reveal(closest_mid_axis);
            assert(closest_mid_axis_among(0, ry, d, rx, 0) == 12);
            assert(closest_mid_axis_among(0, ry, d, rx, 1) == 12);
            assert(closest_mid_axis_among(0, ry, d, rx, 2) == 12);
            assert(closest_mid_axis_among(0, ry, d, rx, 3) == 12);
            assert(closest_mid_axis_among(0, ry, d, rx, 4) == 12);
            assert(closest_mid_axis_among(0, ry, d, rx, 5) == 12);
            assert(closest_mid_axis_among(0, ry, d, rx, 6) == 12);
            assert(closest_mid_axis_among(0, ry, d, rx, 7) == 12);
            assert(closest_mid_axis_among(0, ry, d, rx, 8) == 12);
            assert(closest_mid_axis_among(0, ry, d, rx, 9) == 8);
            assert(closest_mid_axis_among(0, ry, d, rx, 10) == 8);
            assert(closest_mid_axis_among(0, ry, d, rx, 11) == 8);
            assert(closest_mid_axis_among(0, ry, d, rx, 12) == 8);
        }
    }
    if d == 4 {
        assert(closest_mid_axis(0, ry, d, rx) == 8) by {
            reveal(triangle);
            reveal(closest_mid_axis);
            assert(closest_mid_axis_among(0, ry, d, rx, 0) == 12);
            assert(closest_mid_axis_among(0, ry, d, rx, 1) == 12);
            assert(closest_mid_axis_among(0, ry, d, rx, 2) == 12);
            assert(closest_mid_axis_among(0, ry, d, rx, 3) == 12);
            assert(closest_mid_axis_among(0, ry, d, rx, 4) == 12);
            assert(closest_mid_axis_among(0, ry, d, rx, 5) == 12);
            assert(closest_mid_axis_among(0, ry, d, rx, 6) == 12);
            assert(closest_mid_axis_among(0, ry, d, rx, 7) == 12);
            assert(closest_mid_axis_among(0, ry, d, rx, 8) == 12);
            assert(closest_mid_axis_among(0, ry, d, rx, 9) == 8);
            assert(closest_mid_axis_among(0, ry, d, rx, 10) == 8);
            assert(closest_mid_axis_among(0, ry, d, rx, 11) == 8);
            assert(closest_mid_axis_among(0, ry, d, rx, 12) == 8);
        }
    }
    if d == 6 {
        assert(closest_mid_axis(0, ry, d, rx) == 8) by {
            reveal(triangle);
            reveal(closest_mid_axis);
            assert(closest_mid_axis_among(0, ry, d, rx, 0) == 12);
            assert(closest_mid_axis_among(0, ry, d, rx, 1) == 12);
            assert(closest_mid_axis_among(0, ry, d, rx, 2) == 12);
            assert(closest_mid_axis_among(0, ry, d, rx, 3) == 12);
            assert(closest_mid_axis_among(0, ry, d, rx, 4) == 12);
            assert(closest_mid_axis_among(0, ry, d, rx, 5) == 12);
            assert(closest_mid_axis_among(0, ry, d, rx, 6) == 12);
            assert(closest_mid_axis_among(0, ry, d, rx, 7) == 12);
            assert(closest_mid_axis_among(0, ry, d, rx, 8) == 12);
            assert(closest_mid_axis_among(0, ry, d, rx, 9) == 8);
            assert(closest_mid_axis_among(0, ry, d, rx, 10) == 8);
            assert(closest_mid_axis_among(0, ry, d, rx, 11) == 8);
            assert(closest_mid_axis_among(0, ry, d, rx, 12) == 8);
        }
    }
    if d == 8 {
        assert(closest_mid_axis(0, ry, d, rx) == 8) by {
            reveal(triangle);
            reveal(closest_mid_axis);
            assert(closest_mid_axis_among(0, ry, d, rx, 0) == 12);
            assert(closest_mid_axis_among(0, ry, d, rx, 1) == 12);
            assert(closest_mid_axis_among(0, ry, d, rx, 2) == 12);
            assert(closest_mid_axis_among(0, ry, d, rx, 3) == 12);
            assert(closest_mid_axis_among(0, ry, d, rx, 4) == 12);
            assert(closest_mid_axis_among(0, ry, d, rx, 5) == 12);
            assert(closest_mid_axis_among(0, ry, d, rx, 6) == 12);
            assert(closest_mid_axis_among(0, ry, d, rx, 7) == 12);
            assert(closest_mid_axis_among(0, ry, d, rx, 8) == 12);
            assert(closest_mid_axis_among(0, ry, d, rx, 9) == 8);
            assert(closest_mid_axis_among(0, ry, d, rx, 10) == 8);
            assert(closest_mid_axis_among(0, ry, d, rx, 11) == 8);
            assert(closest_mid_axis_among(0, ry, d, rx, 12) == 8);
        }
    }
    if d == 10 {
        assert(closest_mid_axis(0, ry, d, rx) == 10) by {
            reveal(triangle);
            reveal(closest_mid_axis);
            assert(closest_mid_axis_among(0, ry, d, rx, 0) == 12);
            assert(closest_mid_axis_among(0, ry, d, rx, 1) == 12);
            assert(closest_mid_axis_among(0, ry, d, rx, 2) == 12);
            assert(closest_mid_axis_among(0, ry, d, rx, 3) == 12);
            assert(closest_mid_axis_among(0, ry, d, rx, 4) == 12);
            assert(closest_mid_axis_among(0, ry, d, rx, 5) == 12);
            assert(closest_mid_axis_among(0, ry, d, rx, 6) == 12);
            assert(closest_mid_axis_among(0, ry, d, rx, 7) == 12);
            assert(closest_mid_axis_among(0, ry, d, rx, 8) == 12);
            assert(closest_mid_axis_among(0, ry, d, rx, 9) == 8);
            assert(closest_mid_axis_among(0, ry, d, rx, 10) == 8);
            assert(closest_mid_axis_among(0, ry, d, rx, 11) == 10);
            assert(closest_mid_axis_among(0, ry, d, rx, 12) == 10);
        }
    }
}

/// Rebasing keeps canonical form on the lower pentagon on `x == 0`.
#[verifier::spinoff_prover]
#[verifier::rlimit(50)]
proof fn lemma_rebased_canonical_lower_west(q: CellPos, e: Dir, rx: int, ry: int)
    requires
        resolution_ok(rx, ry),
        within_root(q, rx, ry),
        e.at_hex_edge(),
        q.x == 0,
        q.y == ry,
    ensures
        canonical(rebased(q, e, rx, ry).0, rebased(q, e, rx, ry).1, rx, ry),
{
    reveal(rebased);
    reveal(triangle);
    lemma_mid_axis_lower_west(e.index as int, rx, ry);
    if e.index == 0 {
    } else if e.index == 2 {
    } else if e.index == 4 {
    } else if e.index == 6 {
    } else if e.index == 8 {
    } else {
    }
}

/// Which frame a facing selects on this pentagon.
#[verifier::spinoff_prover]
#[verifier::rlimit(100)]
proof fn lemma_mid_axis_upper_east(d: int, rx: int, ry: int)
    requires
        resolution_ok(rx, ry),
    ensures
        d == 0 ==> closest_mid_axis(rx, 0, d, rx) == 3,
        d == 2 ==> closest_mid_axis(rx, 0, d, rx) == 1,
        d == 4 ==> closest_mid_axis(rx, 0, d, rx) == 1,
        d == 6 ==> closest_mid_axis(rx, 0, d, rx) == 1,
        d == 8 ==> closest_mid_axis(rx, 0, d, rx) == 1,
        d == 10 ==> closest_mid_axis(rx, 0, d, rx) == 3,
{
    if d == 0 {
        assert(closest_mid_axis(rx, 0, d, rx) == 3) by {
            reveal(triangle);
            reveal(closest_mid_axis);
            assert(closest_mid_axis_among(rx, 0, d, rx, 0) == 12);
            assert(closest_mid_axis_among(rx, 0, d, rx, 1) == 12);
            assert(closest_mid_axis_among(rx, 0, d, rx, 2) == 1);
            assert(closest_mid_axis_among(rx, 0, d, rx, 3) == 1);
            assert(closest_mid_axis_among(rx, 0, d, rx, 4) == 3);
            assert(closest_mid_axis_among(rx, 0, d, rx, 5) == 3);
            assert(closest_mid_axis_among(rx, 0, d, rx, 6) == 3);
            assert(closest_mid_axis_among(rx, 0, d, rx, 7) == 3);
            assert(closest_mid_axis_among(rx, 0, d, rx, 8) == 3);
            assert(closest_mid_axis_among(rx, 0, d, rx, 9) == 3);
            assert(closest_mid_axis_among(rx, 0, d, rx, 10) == 3);
            assert(closest_mid_axis_among(rx, 0, d, rx, 11) == 3);
            assert(closest_mid_axis_among(rx, 0, d, rx, 12) == 3);
        }
    }
    if d == 2 {
        assert(closest_mid_axis(rx, 0, d, rx) == 1) by {
            reveal(triangle);
            reveal(closest_mid_axis);
            assert(closest_mid_axis_among(rx, 0, d, rx, 0) == 12);
            assert(closest_mid_axis_among(rx, 0, d, rx, 1) == 12);
            assert(closest_mid_axis_among(rx, 0, d, rx, 2) == 1);
            assert(closest_mid_axis_among(rx, 0, d, rx, 3) == 1);
            assert(closest_mid_axis_among(rx, 0, d, rx, 4) == 1);
            assert(closest_mid_axis_among(rx, 0, d, rx, 5) == 1);
            assert(closest_mid_axis_among(rx, 0, d, rx, 6) == 1);
            assert(closest_mid_axis_among(rx, 0, d, rx, 7) == 1);
            assert(closest_mid_axis_among(rx, 0, d, rx, 8) == 1);
            assert(closest_mid_axis_among(rx, 0, d, rx, 9) == 1);
            assert(closest_mid_axis_among(rx, 0, d, rx, 10) == 1);
            assert(closest_mid_axis_among(rx, 0, d, rx, 11) == 1);
            assert(closest_mid_axis_among(rx, 0, d, rx, 12) == 1);
        }
    }
    if d == 4 {
        assert(closest_mid_axis(rx, 0, d, rx) == 1) by {
            reveal(triangle);
            reveal(closest_mid_axis);
            assert(closest_mid_axis_among(rx, 0, d, rx, 0) == 12);
            assert(closest_mid_axis_among(rx, 0, d, rx, 1) == 12);
            assert(closest_mid_axis_among(rx, 0, d, rx, 2) == 1);
            assert(closest_mid_axis_among(rx, 0, d, rx, 3) == 1);
            assert(closest_mid_axis_among(rx, 0, d, rx, 4) == 1);
            assert(closest_mid_axis_among(rx, 0, d, rx, 5) == 1);
            assert(closest_mid_axis_among(rx, 0, d, rx, 6) == 1);
            assert(closest_mid_axis_among(rx, 0, d, rx, 7) == 1);
            assert(closest_mid_axis_among(rx, 0, d, rx, 8) == 1);
            assert(closest_mid_axis_among(rx, 0, d, rx, 9) == 1);
            assert(closest_mid_axis_among(rx, 0, d, rx, 10) == 1);
            assert(closest_mid_axis_among(rx, 0, d, rx, 11) == 1);
            assert(closest_mid_axis_among(rx, 0, d, rx, 12) == 1);
        }
    }
    if d == 6 {
        assert(closest_mid_axis(rx, 0, d, rx) == 1) by {
            reveal(triangle);
            reveal(closest_mid_axis);
            assert(closest_mid_axis_among(rx, 0, d, rx, 0) == 12);
            assert(closest_mid_axis_among(rx, 0, d, rx, 1) == 12);
            assert(closest_mid_axis_among(rx, 0, d, rx, 2) == 1);
            assert(closest_mid_axis_among(rx, 0, d, rx, 3) == 1);
            assert(closest_mid_axis_among(rx, 0, d, rx, 4) == 1);
            assert(closest_mid_axis_among(rx, 0, d, rx, 5) == 1);
            assert(closest_mid_axis_among(rx, 0, d, rx, 6) == 1);
            assert(closest_mid_axis_among(rx, 0, d, rx, 7) == 1);
            assert(closest_mid_axis_among(rx, 0, d, rx, 8) == 1);
            assert(closest_mid_axis_among(rx, 0, d, rx, 9) == 1);
            assert(closest_mid_axis_among(rx, 0, d, rx, 10) == 1);
            assert(closest_mid_axis_among(rx, 0, d, rx, 11) == 1);
            assert(closest_mid_axis_among(rx, 0, d, rx, 12) == 1);
        }
    }
    if d == 8 {
        assert(closest_mid_axis(rx, 0, d, rx) == 1) by {
            reveal(triangle);
            reveal(closest_mid_axis);
            assert(closest_mid_axis_among(rx, 0, d, rx, 0) == 12);
            assert(closest_mid_axis_among(rx, 0, d, rx, 1) == 12);
            assert(closest_mid_axis_among(rx, 0, d, rx, 2) == 1);
            assert(closest_mid_axis_among(rx, 0, d, rx, 3) == 1);
            assert(closest_mid_axis_among(rx, 0, d, rx, 4) == 1);
            assert(closest_mid_axis_among(rx, 0, d, rx, 5) == 1);
            assert(closest_mid_axis_among(rx, 0, d, rx, 6) == 1);
            assert(closest_mid_axis_among(rx, 0, d, rx, 7) == 1);
            assert(closest_mid_axis_among(rx, 0, d, rx, 8) == 1);
            assert(closest_mid_axis_among(rx, 0, d, rx, 9) == 1);
            assert(closest_mid_axis_among(rx, 0, d, rx, 10) == 1);
            assert(closest_mid_axis_among(rx, 0, d, rx, 11) == 1);
            assert(closest_mid_axis_among(rx, 0, d, rx, 12) == 1);
        }
    }
    if d == 10 {
        assert(closest_mid_axis(rx, 0, d, rx) == 3) by {
            reveal(triangle);
            reveal(closest_mid_axis);
            assert(closest_mid_axis_among(rx, 0, d, rx, 0) == 12);
            assert(closest_mid_axis_among(rx, 0, d, rx, 1) == 12);
            assert(closest_mid_axis_among(rx, 0, d, rx, 2) == 1);
            assert(closest_mid_axis_among(rx, 0, d, rx, 3) == 1);
            assert(closest_mid_axis_among(rx, 0, d, rx, 4) == 3);
            assert(closest_mid_axis_among(rx, 0, d, rx, 5) == 3);
            assert(closest_mid_axis_among(rx, 0, d, rx, 6) == 3);
            assert(closest_mid_axis_among(rx, 0, d, rx, 7) == 3);
            assert(closest_mid_axis_among(rx, 0, d, rx, 8) == 3);
            assert(closest_mid_axis_among(rx, 0, d, rx, 9) == 3);
            assert(closest_mid_axis_among(rx, 0, d, rx, 10) == 3);
            assert(closest_mid_axis_among(rx, 0, d, rx, 11) == 3);
            assert(closest_mid_axis_among(rx, 0, d, rx, 12) == 3);
        }
    }
}

/// Rebasing keeps canonical form on the upper pentagon on `x == rx`.
#[verifier::spinoff_prover]
#[verifier::rlimit(50)]
proof fn lemma_rebased_canonical_upper_east(q: CellPos, e: Dir, rx: int, ry: int)
    requires
        resolution_ok(rx, ry),
        within_root(q, rx, ry),
        e.at_hex_edge(),
        q.x == rx,
        q.y == 0,
    ensures
        canonical(rebased(q, e, rx, ry).0, rebased(q, e, rx, ry).1, rx, ry),
{
    reveal(rebased);
    reveal(triangle);
    lemma_mid_axis_upper_east(e.index as int, rx, ry);
    if e.index == 0 {
    } else if e.index == 2 {
    } else if e.index == 4 {
    } else if e.index == 6 {
    } else if e.index == 8 {
    } else {
    }
}

/// Which frame a facing selects on this pentagon.
#[verifier::spinoff_prover]
#[verifier::rlimit(100)]
proof fn lemma_mid_axis_lower_east(d: int, rx: int, ry: int)
    requires
        resolution_ok(rx, ry),
    ensures
        d == 0 ==> closest_mid_axis(rx, rx, d, rx) == 9,
        d == 2 ==> closest_mid_axis(rx, rx, d, rx) == 5,
        d == 4 ==> closest_mid_axis(rx, rx, d, rx) == 5,
        d == 6 ==> closest_mid_axis(rx, rx, d, rx) == 5,
        d == 8 ==> closest_mid_axis(rx, rx, d, rx) == 7,
        d == 10 ==> closest_mid_axis(rx, rx, d, rx) == 9,
{
    if d == 0 {
        assert(closest_mid_axis(rx, rx, d, rx) == 9) by {
            reveal(triangle);
            reveal(closest_mid_axis);
            assert(closest_mid_axis_among(rx, rx, d, rx, 0) == 12);
            assert(closest_mid_axis_among(rx, rx, d, rx, 1) == 12);
            assert(closest_mid_axis_among(rx, rx, d, rx, 2) == 12);
            assert(closest_mid_axis_among(rx, rx, d, rx, 3) == 12);
            assert(closest_mid_axis_among(rx, rx, d, rx, 4) == 12);
            assert(closest_mid_axis_among(rx, rx, d, rx, 5) == 12);
            assert(closest_mid_axis_among(rx, rx, d, rx, 6) == 5);
            assert(closest_mid_axis_among(rx, rx, d, rx, 7) == 5);
            assert(closest_mid_axis_among(rx, rx, d, rx, 8) == 5);
            assert(closest_mid_axis_among(rx, rx, d, rx, 9) == 5);
            assert(closest_mid_axis_among(rx, rx, d, rx, 10) == 9);
            assert(closest_mid_axis_among(rx, rx, d, rx, 11) == 9);
            assert(closest_mid_axis_among(rx, rx, d, rx, 12) == 9);
        }
    }
    if d == 2 {
        assert(closest_mid_axis(rx, rx, d, rx) == 5) by {
            reveal(triangle);
            reveal(closest_mid_axis);
            assert(closest_mid_axis_among(rx, rx, d, rx, 0) == 12);
            assert(closest_mid_axis_among(rx, rx, d, rx, 1) == 12);
            assert(closest_mid_axis_among(rx, rx, d, rx, 2) == 12);
            assert(closest_mid_axis_among(rx, rx, d, rx, 3) == 12);
            assert(closest_mid_axis_among(rx, rx, d, rx, 4) == 12);
            assert(closest_mid_axis_among(rx, rx, d, rx, 5) == 12);
            assert(closest_mid_axis_among(rx, rx, d, rx, 6) == 5);
            assert(closest_mid_axis_among(rx, rx, d, rx, 7) == 5);
            assert(closest_mid_axis_among(rx, rx, d, rx, 8) == 5);
            assert(closest_mid_axis_among(rx, rx, d, rx, 9) == 5);
            assert(closest_mid_axis_among(rx, rx, d, rx, 10) == 5);
            assert(closest_mid_axis_among(rx, rx, d, rx, 11) == 5);
            assert(closest_mid_axis_among(rx, rx, d, rx, 12) == 5);
        }
    }
    if d == 4 {
        assert(closest_mid_axis(rx, rx, d, rx) == 5) by {
            reveal(triangle);
            reveal(closest_mid_axis);
            assert(closest_mid_axis_among(rx, rx, d, rx, 0) == 12);
            assert(closest_mid_axis_among(rx, rx, d, rx, 1) == 12);
            assert(closest_mid_axis_among(rx, rx, d, rx, 2) == 12);
            assert(closest_mid_axis_among(rx, rx, d, rx, 3) == 12);
            assert(closest_mid_axis_among(rx, rx, d, rx, 4) == 12);
            assert(closest_mid_axis_among(rx, rx, d, rx, 5) == 12);
            assert(closest_mid_axis_among(rx, rx, d, rx, 6) == 5);
            assert(closest_mid_axis_among(rx, rx, d, rx, 7) == 5);
            assert(closest_mid_axis_among(rx, rx, d, rx, 8) == 5);
            assert(closest_mid_axis_among(rx, rx, d, rx, 9) == 5);
            assert(closest_mid_axis_among(rx, rx, d, rx, 10) == 5);
            assert(closest_mid_axis_among(rx, rx, d, rx, 11) == 5);
            assert(closest_mid_axis_among(rx, rx, d, rx, 12) == 5);
        }
    }
    if d == 6 {
        assert(closest_mid_axis(rx, rx, d, rx) == 5) by {
            reveal(triangle);
            reveal(closest_mid_axis);
            assert(closest_mid_axis_among(rx, rx, d, rx, 0) == 12);
            assert(closest_mid_axis_among(rx, rx, d, rx, 1) == 12);
            assert(closest_mid_axis_among(rx, rx, d, rx, 2) == 12);
            assert(closest_mid_axis_among(rx, rx, d, rx, 3) == 12);
            assert(closest_mid_axis_among(rx, rx, d, rx, 4) == 12);
            assert(closest_mid_axis_among(rx, rx, d, rx, 5) == 12);
            assert(closest_mid_axis_among(rx, rx, d, rx, 6) == 5);
            assert(closest_mid_axis_among(rx, rx, d, rx, 7) == 5);
            assert(closest_mid_axis_among(rx, rx, d, rx, 8) == 5);
            assert(closest_mid_axis_among(rx, rx, d, rx, 9) == 5);
            assert(closest_mid_axis_among(rx, rx, d, rx, 10) == 5);
            assert(closest_mid_axis_among(rx, rx, d, rx, 11) == 5);
            assert(closest_mid_axis_among(rx, rx, d, rx, 12) == 5);
        }
    }
    if d == 8 {
        assert(closest_mid_axis(rx, rx, d, rx) == 7) by {
            reveal(triangle);
            reveal(closest_mid_axis);
            assert(closest_mid_axis_among(rx, rx, d, rx, 0) == 12);
            assert(closest_mid_axis_among(rx, rx, d, rx, 1) == 12);
            assert(closest_mid_axis_among(rx, rx, d, rx, 2) == 12);
            assert(closest_mid_axis_among(rx, rx, d, rx, 3) == 12);
            assert(closest_mid_axis_among(rx, rx, d, rx, 4) == 12);
            assert(closest_mid_axis_among(rx, rx, d, rx, 5) == 12);
            assert(closest_mid_axis_among(rx, rx, d, rx, 6) == 5);
            assert(closest_mid_axis_among(rx, rx, d, rx, 7) == 5);
            assert(closest_mid_axis_among(rx, rx, d, rx, 8) == 7);
            assert(closest_mid_axis_among(rx, rx, d, rx, 9) == 7);
            assert(closest_mid_axis_among(rx, rx, d, rx, 10) == 7);
            assert(closest_mid_axis_among(rx, rx, d, rx, 11) == 7);
            assert(closest_mid_axis_among(rx, rx, d, rx, 12) == 7);
        }
    }
    if d == 10 {
        assert(closest_mid_axis(rx, rx, d, rx) == 9) by {
            reveal(triangle);
            reveal(closest_mid_axis);
            assert(closest_mid_axis_among(rx, rx, d, rx, 0) == 12);
            assert(closest_mid_axis_among(rx, rx, d, rx, 1) == 12);
            assert(closest_mid_axis_among(rx, rx, d, rx, 2) == 12);
            assert(closest_mid_axis_among(rx, rx, d, rx, 3) == 12);
            assert(closest_mid_axis_among(rx, rx, d, rx, 4) == 12);
            assert(closest_mid_axis_among(rx, rx, d, rx, 5) == 12);
            assert(closest_mid_axis_among(rx, rx, d, rx, 6) == 5);
            assert(closest_mid_axis_among(rx, rx, d, rx, 7) == 5);
            assert(closest_mid_axis_among(rx, rx, d, rx, 8) == 7);
            assert(closest_mid_axis_among(rx, rx, d, rx, 9) == 7);
            assert(closest_mid_axis_among(rx, rx, d, rx, 10) == 9);
            assert(closest_mid_axis_among(rx, rx, d, rx, 11) == 9);
            assert(closest_mid_axis_among(rx, rx, d, rx, 12) == 9);
        }
    }
}

/// Rebasing keeps canonical form on the lower pentagon on `x == rx`.
#[verifier::spinoff_prover]
#[verifier::rlimit(50)]
proof fn lemma_rebased_canonical_lower_east(q: CellPos, e: Dir, rx: int, ry: int)
    requires
        resolution_ok(rx, ry),
        within_root(q, rx, ry),
        e.at_hex_edge(),
        q.x == rx,
        q.y == rx,
    ensures
        canonical(rebased(q, e, rx, ry).0, rebased(q, e, rx, ry).1, rx, ry),
{
    reveal(rebased);
    reveal(triangle);
    lemma_mid_axis_lower_east(e.index as int, rx, ry);
    if e.index == 0 {
    } else if e.index == 2 {
    } else if e.index == 4 {
    } else if e.index == 6 {
    } else if e.index == 8 {
    } else {
    }
}

/// Which frame a facing selects on this pentagon.
#[verifier::spinoff_prover]
#[verifier::rlimit(100)]
proof fn lemma_mid_axis_south_pole(d: int, rx: int, ry: int)
    requires
        resolution_ok(rx, ry),
    ensures
        d == 0 ==> closest_mid_axis(rx, ry, d, rx) == 11,
        d == 2 ==> closest_mid_axis(rx, ry, d, rx) == 11,
        d == 4 ==> closest_mid_axis(rx, ry, d, rx) == 11,
        d == 6 ==> closest_mid_axis(rx, ry, d, rx) == 11,
        d == 8 ==> closest_mid_axis(rx, ry, d, rx) == 11,
        d == 10 ==> closest_mid_axis(rx, ry, d, rx) == 11,
{
    if d == 0 {
        assert(closest_mid_axis(rx, ry, d, rx) == 11) by {
            reveal(triangle);
            reveal(closest_mid_axis);
            assert(closest_mid_axis_among(rx, ry, d, rx, 0) == 12);
            assert(closest_mid_axis_among(rx, ry, d, rx, 1) == 12);
            assert(closest_mid_axis_among(rx, ry, d, rx, 2) == 12);
            assert(closest_mid_axis_among(rx, ry, d, rx, 3) == 12);
            assert(closest_mid_axis_among(rx, ry, d, rx, 4) == 12);
            assert(closest_mid_axis_among(rx, ry, d, rx, 5) == 12);
            assert(closest_mid_axis_among(rx, ry, d, rx, 6) == 12);
            assert(closest_mid_axis_among(rx, ry, d, rx, 7) == 12);
            assert(closest_mid_axis_among(rx, ry, d, rx, 8) == 12);
            assert(closest_mid_axis_among(rx, ry, d, rx, 9) == 12);
            assert(closest_mid_axis_among(rx, ry, d, rx, 10) == 12);
            assert(closest_mid_axis_among(rx, ry, d, rx, 11) == 12);
            assert(closest_mid_axis_among(rx, ry, d, rx, 12) == 11);
        }
    }
    if d == 2 {
        assert(closest_mid_axis(rx, ry, d, rx) == 11) by {
            reveal(triangle);
            reveal(closest_mid_axis);
            assert(closest_mid_axis_among(rx, ry, d, rx, 0) == 12);
            assert(closest_mid_axis_among(rx, ry, d, rx, 1) == 12);
            assert(closest_mid_axis_among(rx, ry, d, rx, 2) == 12);
            assert(closest_mid_axis_among(rx, ry, d, rx, 3) == 12);
            assert(closest_mid_axis_among(rx, ry, d, rx, 4) == 12);
            assert(closest_mid_axis_among(rx, ry, d, rx, 5) == 12);
            assert(closest_mid_axis_among(rx, ry, d, rx, 6) == 12);
            assert(closest_mid_axis_among(rx, ry, d, rx, 7) == 12);
            assert(closest_mid_axis_among(rx, ry, d, rx, 8) == 12);
            assert(closest_mid_axis_among(rx, ry, d, rx, 9) == 12);
            assert(closest_mid_axis_among(rx, ry, d, rx, 10) == 12);
            assert(closest_mid_axis_among(rx, ry, d, rx, 11) == 12);
            assert(closest_mid_axis_among(rx, ry, d, rx, 12) == 11);
        }
    }
    if d == 4 {
        assert(closest_mid_axis(rx, ry, d, rx) == 11) by {
            reveal(triangle);
            reveal(closest_mid_axis);
            assert(closest_mid_axis_among(rx, ry, d, rx, 0) == 12);
            assert(closest_mid_axis_among(rx, ry, d, rx, 1) == 12);
            assert(closest_mid_axis_among(rx, ry, d, rx, 2) == 12);
            assert(closest_mid_axis_among(rx, ry, d, rx, 3) == 12);
            assert(closest_mid_axis_among(rx, ry, d, rx, 4) == 12);
            assert(closest_mid_axis_among(rx, ry, d, rx, 5) == 12);
            assert(closest_mid_axis_among(rx, ry, d, rx, 6) == 12);
            assert(closest_mid_axis_among(rx, ry, d, rx, 7) == 12);
            assert(closest_mid_axis_among(rx, ry, d, rx, 8) == 12);
            assert(closest_mid_axis_among(rx, ry, d, rx, 9) == 12);
            assert(closest_mid_axis_among(rx, ry, d, rx, 10) == 12);
            assert(closest_mid_axis_among(rx, ry, d, rx, 11) == 12);
            assert(closest_mid_axis_among(rx, ry, d, rx, 12) == 11);
        }
    }
    if d == 6 {
        assert(closest_mid_axis(rx, ry, d, rx) == 11) by {
            reveal(triangle);
            reveal(closest_mid_axis);
            assert(closest_mid_axis_among(rx, ry, d, rx, 0) == 12);
            assert(closest_mid_axis_among(rx, ry, d, rx, 1) == 12);
            assert(closest_mid_axis_among(rx, ry, d, rx, 2) == 12);
            assert(closest_mid_axis_among(rx, ry, d, rx, 3) == 12);
            assert(closest_mid_axis_among(rx, ry, d, rx, 4) == 12);
            assert(closest_mid_axis_among(rx, ry, d, rx, 5) == 12);
            assert(closest_mid_axis_among(rx, ry, d, rx, 6) == 12);
            assert(closest_mid_axis_among(rx, ry, d, rx, 7) == 12);
            assert(closest_mid_axis_among(rx, ry, d, rx, 8) == 12);
            assert(closest_mid_axis_among(rx, ry, d, rx, 9) == 12);
            assert(closest_mid_axis_among(rx, ry, d, rx, 10) == 12);
            assert(closest_mid_axis_among(rx, ry, d, rx, 11) == 12);
            assert(closest_mid_axis_among(rx, ry, d, rx, 12) == 11);
        }
    }
    if d == 8 {
        assert(closest_mid_axis(rx, ry, d, rx) == 11) by {
            reveal(triangle);
            reveal(closest_mid_axis);
            assert(closest_mid_axis_among(rx, ry, d, rx, 0) == 12);
            assert(closest_mid_axis_among(rx, ry, d, rx, 1) == 12);
            assert(closest_mid_axis_among(rx, ry, d, rx, 2) == 12);
            assert(closest_mid_axis_among(rx, ry, d, rx, 3) == 12);
            assert(closest_mid_axis_among(rx, ry, d, rx, 4) == 12);
            assert(closest_mid_axis_among(rx, ry, d, rx, 5) == 12);
            assert(closest_mid_axis_among(rx, ry, d, rx, 6) == 12);
            assert(closest_mid_axis_among(rx, ry, d, rx, 7) == 12);
            assert(closest_mid_axis_among(rx, ry, d, rx, 8) == 12);
            assert(closest_mid_axis_among(rx, ry, d, rx, 9) == 12);
            assert(closest_mid_axis_among(rx, ry, d, rx, 10) == 12);
            assert(closest_mid_axis_among(rx, ry, d, rx, 11) == 12);
            assert(closest_mid_axis_among(rx, ry, d, rx, 12) == 11);
        }
    }
    if d == 10 {
        assert(closest_mid_axis(rx, ry, d, rx) == 11) by {
            reveal(triangle);
            reveal(closest_mid_axis);
            assert(closest_mid_axis_among(rx, ry, d, rx, 0) == 12);
            assert(closest_mid_axis_among(rx, ry, d, rx, 1) == 12);
            assert(closest_mid_axis_among(rx, ry, d, rx, 2) == 12);
            assert(closest_mid_axis_among(rx, ry, d, rx, 3) == 12);
            assert(closest_mid_axis_among(rx, ry, d, rx, 4) == 12);
            assert(closest_mid_axis_among(rx, ry, d, rx, 5) == 12);
            assert(closest_mid_axis_among(rx, ry, d, rx, 6) == 12);
            assert(closest_mid_axis_among(rx, ry, d, rx, 7) == 12);
            assert(closest_mid_axis_among(rx, ry, d, rx, 8) == 12);
            assert(closest_mid_axis_among(rx, ry, d, rx, 9) == 12);
            assert(closest_mid_axis_among(rx, ry, d, rx, 10) == 12);
            assert(closest_mid_axis_among(rx, ry, d, rx, 11) == 12);
            assert(closest_mid_axis_among(rx, ry, d, rx, 12) == 11);
        }
    }
}

/// Rebasing keeps canonical form on the south pole.
#[verifier::spinoff_prover]
#[verifier::rlimit(50)]
proof fn lemma_rebased_canonical_south_pole(q: CellPos, e: Dir, rx: int, ry: int)
    requires
        resolution_ok(rx, ry),
        within_root(q, rx, ry),
        e.at_hex_edge(),
        near_facing(q, e, rx, ry),
        q.x == rx,
        q.y == ry,
    ensures
        canonical(rebased(q, e, rx, ry).0, rebased(q, e, rx, ry).1, rx, ry),
{
    reveal(rebased);
    reveal(triangle);
    lemma_mid_axis_south_pole(e.index as int, rx, ry);
    if e.index == 0 {
    } else if e.index == 2 {
    } else if e.index == 4 {
    } else if e.index == 6 {
    } else if e.index == 8 {
    } else {
    }
}

/// Re-expressing a position of a quad leaves it in canonical form, unless
/// it sits on a pole facing more than one hexagon edge away from the quad.
proof fn lemma_rebased_canonical(q: CellPos, e: Dir, rx: int, ry: int)
    requires
        resolution_ok(rx, ry),
        within_root(q, rx, ry),
        e.at_hex_edge(),
        near_facing(q, e, rx, ry) || !pole_at(q.x as int, q.y as int, rx, ry),
    ensures
        canonical(rebased(q, e, rx, ry).0, rebased(q, e, rx, ry).1, rx, ry),
{
    if strictly_inside(q, rx, ry) {
        reveal(rebased);
    } else if pentagon_at(q.x as int, q.y as int, rx, ry) {
        if q.x == 0 && q.y == 0 {
            lemma_rebased_canonical_north_pole(q, e, rx, ry);
        }
        if q.x == 0 && q.y == rx {
            lemma_rebased_canonical_upper_west(q, e, rx, ry);
        }
        if q.x == 0 && q.y == ry {
            lemma_rebased_canonical_lower_west(q, e, rx, ry);
        }
        if q.x == rx && q.y == 0 {
            lemma_rebased_canonical_upper_east(q, e, rx, ry);
        }
        if q.x == rx && q.y == rx {
            lemma_rebased_canonical_lower_east(q, e, rx, ry);
        }
        if q.x == rx && q.y == ry {
            lemma_rebased_canonical_south_pole(q, e, rx, ry);
        }
    } else if q.x == 0 && 0 < q.y < rx {
        lemma_rebased_canonical_edge_x0_north(q, e, rx, ry);
    } else if q.x == 0 && rx < q.y < ry {
        lemma_rebased_canonical_edge_x0_south(q, e, rx, ry);
    } else if q.y == 0 && 0 < q.x < rx {
        lemma_rebased_canonical_edge_y0(q, e, rx, ry);
    } else if q.x == rx && 0 < q.y < rx {
        lemma_rebased_canonical_edge_xr_north(q, e, rx, ry);
    } else if q.x == rx && rx < q.y < ry {
        lemma_rebased_canonical_edge_xr_south(q, e, rx, ry);
    } else if q.y == ry && 0 < q.x < rx {
        lemma_rebased_canonical_edge_yr(q, e, rx, ry);
    }
}

/// Rebasing a position on a pole leaves it on that pole, within its quad.
proof fn lemma_rebased_pole_within(q: CellPos, e: Dir, rx: int, ry: int)
    requires
        resolution_ok(rx, ry),
        within_root(q, rx, ry),
        e.at_hex_edge(),
        pole_at(q.x as int, q.y as int, rx, ry),
    ensures
        within_root(rebased(q, e, rx, ry).0, rx, ry),
{
    reveal(rebased);
    reveal(triangle);
    if q.x == 0 {
        lemma_mid_axis_north_pole(e.index as int, rx, ry);
    } else {
        lemma_mid_axis_south_pole(e.index as int, rx, ry);
    }
}

/// A step forward from canonical form lands within the bounds of its root
/// quad, and stays in canonical form unless it lands on one of the poles,
/// where five quads meet and no facing continues the walk.
pub proof fn lemma_move_forward_keeps_canonical(pos: CellPos, dir: Dir, rx: int, ry: int)
    requires
        resolution_ok(rx, ry),
        canonical(pos, dir, rx, ry),
    ensures
        within_root(moved_forward(pos, dir, rx, ry).0, rx, ry),
        !pole_at(adjacent(pos, dir).x as int, adjacent(pos, dir).y as int, rx, ry) ==> canonical(
            moved_forward(pos, dir, rx, ry).0,
            moved_forward(pos, dir, rx, ry).1,
            rx,
            ry,
        ),
{
    let q = adjacent(pos, dir);
    if pole_at(q.x as int, q.y as int, rx, ry) {
        lemma_rebased_pole_within(q, dir, rx, ry);
    } else {
        lemma_rebased_canonical(q, dir, rx, ry);
    }
}

/// A turn by one hexagon edge either way keeps canonical form.
pub proof fn lemma_turns_keep_canonical(pos: CellPos, dir: Dir, rx: int, ry: int)
    requires
        resolution_ok(rx, ry),
        canonical(pos, dir, rx, ry),
    ensures
        canonical(turned_left(pos, dir, rx, ry).0, turned_left(pos, dir, rx, ry).1, rx, ry),
        canonical(turned_right(pos, dir, rx, ry).0, turned_right(pos, dir, rx, ry).1, rx, ry),
{
    let l = Dir { index: left_of(dir.index) };
    let r = Dir { index: right_of(dir.index) };
    assert(Dir { index: right_of(l.index) } == dir);
    assert(Dir { index: left_of(r.index) } == dir);
    lemma_rebased_canonical(pos, l, rx, ry);
    lemma_rebased_canonical(pos, r, rx, ry);
}

/// One of the three moves that drive an entity over the globe.
#[derive(Clone, Copy, Debug, PartialEq, Eq)]
pub enum Motion {
    Forward,
    TurnLeft,
    TurnRight,
}

/// Position and facing after one motion.
pub open spec fn after_motion(pos: CellPos, dir: Dir, rx: int, ry: int, m: Motion) -> (CellPos, Dir) {
    match m {
        Motion::Forward => moved_forward(pos, dir, rx, ry),
        Motion::TurnLeft => turned_left(pos, dir, rx, ry),
        Motion::TurnRight => turned_right(pos, dir, rx, ry),
    }
}

/// Position and facing after each of `motions` in turn.
pub open spec fn after_motions(pos: CellPos, dir: Dir, rx: int, ry: int, motions: Seq<Motion>) -> (
    CellPos,
    Dir,
)
    decreases motions.len(),
{
    if motions.len() == 0 {
        (pos, dir)
    } else {
        let next = after_motion(pos, dir, rx, ry, motions[0]);
        after_motions(next.0, next.1, rx, ry, motions.drop_first())
    }
}

/// No step forward among `motions`, taken from `pos` and `dir`, lands on a
/// pole.
pub open spec fn steps_avoid_poles(pos: CellPos, dir: Dir, rx: int, ry: int, motions: Seq<Motion>) -> bool
    decreases motions.len(),
{
    if motions.len() == 0 {
        true
    } else {
        let next = after_motion(pos, dir, rx, ry, motions[0]);
        (motions[0] == Motion::Forward ==> !pole_at(
            adjacent(pos, dir).x as int,
            adjacent(pos, dir).y as int,
            rx,
            ry,
        )) && steps_avoid_poles(next.0, next.1, rx, ry, motions.drop_first())
    }
}

/// Every sequence of steps and turns that starts in canonical form, and
/// never steps onto a pole, stays in canonical form, and so within the
/// bounds of the root quad that owns the position; a final step may land
/// on a pole, and it too stays within those bounds.
pub proof fn lemma_motions_keep_canonical(pos: CellPos, dir: Dir, rx: int, ry: int, motions: Seq<Motion>)
    requires
        resolution_ok(rx, ry),
        canonical(pos, dir, rx, ry),
        steps_avoid_poles(pos, dir, rx, ry, motions),
    ensures
        canonical(after_motions(pos, dir, rx, ry, motions).0, after_motions(pos, dir, rx, ry, motions).1, rx, ry),
        within_root(after_motions(pos, dir, rx, ry, motions).0, rx, ry),
    decreases motions.len(),
{
    if motions.len() > 0 {
        lemma_move_forward_keeps_canonical(pos, dir, rx, ry);
        lemma_turns_keep_canonical(pos, dir, rx, ry);
        let next = after_motion(pos, dir, rx, ry, motions[0]);
        lemma_motions_keep_canonical(next.0, next.1, rx, ry, motions.drop_first());
    }
}

} // verus!
