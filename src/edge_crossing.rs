//! How positions on the edges of a quad are carried into the neighbouring
//! root quads, and the proof that a step out and back comes home.

use vstd::prelude::*;

use crate::grid::{left_of, right_of, CellPos, Dir, IntCoord, ROOT_QUADS};
use crate::movement::{
    adjacent, closest_triangle, moved_forward, pentagon_at, rebased, resolution_ok, strictly_inside,
    turned_left, turned_right, within_root,
};
use crate::triangles::triangle;

verus! {

/// Where a step forward and then a half turn to the left (three turns by
/// one hexagon edge) and another step forward lead.
pub open spec fn there_and_back_left(pos: CellPos, dir: Dir, rx: int, ry: int) -> CellPos {
    let a = moved_forward(pos, dir, rx, ry);
    let b = turned_left(a.0, a.1, rx, ry);
    let c = turned_left(b.0, b.1, rx, ry);
    let d = turned_left(c.0, c.1, rx, ry);
    moved_forward(d.0, d.1, rx, ry).0
}

/// Where a step forward and then a half turn to the right (three turns by
/// one hexagon edge) and another step forward lead.
pub open spec fn there_and_back_right(pos: CellPos, dir: Dir, rx: int, ry: int) -> CellPos {
    let a = moved_forward(pos, dir, rx, ry);
    let b = turned_right(a.0, a.1, rx, ry);
    let c = turned_right(b.0, b.1, rx, ry);
    let d = turned_right(c.0, c.1, rx, ry);
    moved_forward(d.0, d.1, rx, ry).0
}

/// Where a position on an edge of its quad, but on no pentagon, is
/// re-expressed when its facing points out of the quad: the same cell seen
/// from the neighbouring root quad across that edge.
pub open spec fn crossed(q: CellPos, e: Dir, rx: int, ry: int) -> (CellPos, Dir) {
    if q.y == 0 && 0 < q.x < rx && (e.index == 2 || e.index == 4) {
        (
            CellPos { root: ((q.root + 4) % 5) as u8, x: (0) as IntCoord, y: (q.x) as IntCoord, z: q.z },
            Dir { index: (e.index - 2) as u8 },
        )
    } else if q.x == 0 && 0 < q.y < rx && (e.index == 6 || e.index == 8) {
        (
            CellPos { root: ((q.root + 1) % 5) as u8, x: (q.y) as IntCoord, y: (0) as IntCoord, z: q.z },
            Dir { index: (e.index + 2) as u8 },
        )
    } else if q.x == 0 && rx < q.y < ry && (e.index == 6 || e.index == 8) {
        (
            CellPos { root: ((q.root + 1) % 5) as u8, x: (rx) as IntCoord, y: (q.y - rx) as IntCoord, z: q.z },
            Dir { index: e.index },
        )
    } else if q.x == rx && 0 < q.y < rx && (e.index == 0 || e.index == 2) {
        (
            CellPos { root: ((q.root + 4) % 5) as u8, x: (0) as IntCoord, y: (q.y + rx) as IntCoord, z: q.z },
            Dir { index: e.index },
        )
    } else if q.x == rx && rx < q.y < ry && (e.index == 0 || e.index == 2) {
        (
            CellPos { root: ((q.root + 4) % 5) as u8, x: (q.y - rx) as IntCoord, y: (ry) as IntCoord, z: q.z },
            Dir { index: (e.index + 2) as u8 },
        )
    } else if q.y == ry && 0 < q.x < rx && (e.index == 8 || e.index == 10) {
        (
            CellPos { root: ((q.root + 1) % 5) as u8, x: (rx) as IntCoord, y: (q.x + rx) as IntCoord, z: q.z },
            Dir { index: (e.index - 2) as u8 },
        )
    } else {
        (q, e)
    }
}

/// How a position on the edge `y == 0`, shared with the edge `x == 0` of the previous root next to the north pole, is re-expressed.
#[verifier::spinoff_prover]
proof fn lemma_rebased_edge_y0(q: CellPos, e: Dir, rx: int, ry: int)
    requires
        resolution_ok(rx, ry),
        q.root < ROOT_QUADS,
        e.at_hex_edge(),
        q.y == 0,
        0 < q.x < rx,
    ensures
        rebased(q, e, rx, ry) == crossed(q, e, rx, ry),
{
    reveal(rebased);
    reveal(triangle);
    reveal(closest_triangle);
    if e.index == 0 {
    } else if e.index == 2 {
    } else if e.index == 4 {
    } else if e.index == 6 {
    } else if e.index == 8 {
    } else {
    }
}

/// How a position on the edge `x == 0` next to the north pole, shared with the edge `y == 0` of the next root, is re-expressed.
#[verifier::spinoff_prover]
proof fn lemma_rebased_edge_x0_north(q: CellPos, e: Dir, rx: int, ry: int)
    requires
        resolution_ok(rx, ry),
        q.root < ROOT_QUADS,
        e.at_hex_edge(),
        q.x == 0,
        0 < q.y < rx,
    ensures
        rebased(q, e, rx, ry) == crossed(q, e, rx, ry),
{
    reveal(rebased);
    reveal(triangle);
    reveal(closest_triangle);
    if e.index == 0 {
    } else if e.index == 2 {
    } else if e.index == 4 {
    } else if e.index == 6 {
    } else if e.index == 8 {
    } else {
    }
}

/// How a position on the edge `x == 0` away from the north pole, shared with the edge `x == rx` of the next root away from the south pole, is re-expressed.
#[verifier::spinoff_prover]
proof fn lemma_rebased_edge_x0_south(q: CellPos, e: Dir, rx: int, ry: int)
    requires
        resolution_ok(rx, ry),
        q.root < ROOT_QUADS,
        e.at_hex_edge(),
        q.x == 0,
        rx < q.y < ry,
    ensures
        rebased(q, e, rx, ry) == crossed(q, e, rx, ry),
{
    reveal(rebased);
    reveal(triangle);
    reveal(closest_triangle);
    if e.index == 0 {
    } else if e.index == 2 {
    } else if e.index == 4 {
    } else if e.index == 6 {
    } else if e.index == 8 {
    } else {
    }
}

/// How a position on the edge `x == rx` away from the south pole, shared with the edge `x == 0` of the previous root away from the north pole, is re-expressed.
#[verifier::spinoff_prover]
proof fn lemma_rebased_edge_xr_north(q: CellPos, e: Dir, rx: int, ry: int)
    requires
        resolution_ok(rx, ry),
        q.root < ROOT_QUADS,
        e.at_hex_edge(),
        q.x == rx,
        0 < q.y < rx,
    ensures
        rebased(q, e, rx, ry) == crossed(q, e, rx, ry),
{
    reveal(rebased);
    reveal(triangle);
    reveal(closest_triangle);
    if e.index == 0 {
    } else if e.index == 2 {
    } else if e.index == 4 {
    } else if e.index == 6 {
    } else if e.index == 8 {
    } else {
    }
}

/// How a position on the edge `x == rx` next to the south pole, shared with the edge `y == ry` of the previous root, is re-expressed.
#[verifier::spinoff_prover]
proof fn lemma_rebased_edge_xr_south(q: CellPos, e: Dir, rx: int, ry: int)
    requires
        resolution_ok(rx, ry),
        q.root < ROOT_QUADS,
        e.at_hex_edge(),
        q.x == rx,
        rx < q.y < ry,
    ensures
        rebased(q, e, rx, ry) == crossed(q, e, rx, ry),
{
    reveal(rebased);
    reveal(triangle);
    reveal(closest_triangle);
    if e.index == 0 {
    } else if e.index == 2 {
    } else if e.index == 4 {
    } else if e.index == 6 {
    } else if e.index == 8 {
    } else {
    }
}

/// How a position on the edge `y == ry`, shared with the edge `x == rx` of the next root next to the south pole, is re-expressed.
#[verifier::spinoff_prover]
proof fn lemma_rebased_edge_yr(q: CellPos, e: Dir, rx: int, ry: int)
    requires
        resolution_ok(rx, ry),
        q.root < ROOT_QUADS,
        e.at_hex_edge(),
        q.y == ry,
        0 < q.x < rx,
    ensures
        rebased(q, e, rx, ry) == crossed(q, e, rx, ry),
{
    reveal(rebased);
    reveal(triangle);
    reveal(closest_triangle);
    if e.index == 0 {
    } else if e.index == 2 {
    } else if e.index == 4 {
    } else if e.index == 6 {
    } else if e.index == 8 {
    } else {
    }
}

/// Off the pentagons, a position on an edge of its quad is re-expressed
/// in the neighbouring root quad exactly when its facing points out of its
/// own quad, and is otherwise left alone.
pub proof fn lemma_rebased_off_pentagons(q: CellPos, e: Dir, rx: int, ry: int)
    requires
        resolution_ok(rx, ry),
        within_root(q, rx, ry),
        e.at_hex_edge(),
        !pentagon_at(q.x as int, q.y as int, rx, ry),
    ensures
        rebased(q, e, rx, ry) == crossed(q, e, rx, ry),
{
    if strictly_inside(q, rx, ry) {
        reveal(rebased);
    } else if q.y == 0 && 0 < q.x < rx {
        lemma_rebased_edge_y0(q, e, rx, ry);
    } else if q.x == 0 && 0 < q.y < rx {
        lemma_rebased_edge_x0_north(q, e, rx, ry);
    } else if q.x == 0 && rx < q.y < ry {
        lemma_rebased_edge_x0_south(q, e, rx, ry);
    } else if q.x == rx && 0 < q.y < rx {
        lemma_rebased_edge_xr_north(q, e, rx, ry);
    } else if q.x == rx && rx < q.y < ry {
        lemma_rebased_edge_xr_south(q, e, rx, ry);
    } else if q.y == ry && 0 < q.x < rx {
        lemma_rebased_edge_yr(q, e, rx, ry);
    }
}

proof fn lemma_there_and_back_left(pos: CellPos, dir: Dir, rx: int, ry: int)
    requires
        resolution_ok(rx, ry),
        pos.root < ROOT_QUADS,
        strictly_inside(pos, rx, ry),
        dir.at_hex_edge(),
        !pentagon_at(adjacent(pos, dir).x as int, adjacent(pos, dir).y as int, rx, ry),
    ensures
        there_and_back_left(pos, dir, rx, ry) == pos,
{
    lemma_rebased_off_pentagons(adjacent(pos, dir), dir, rx, ry);
    let a = moved_forward(pos, dir, rx, ry);
    lemma_rebased_off_pentagons(a.0, Dir { index: left_of(a.1.index) }, rx, ry);
    let b = turned_left(a.0, a.1, rx, ry);
    lemma_rebased_off_pentagons(b.0, Dir { index: left_of(b.1.index) }, rx, ry);
    let c = turned_left(b.0, b.1, rx, ry);
    lemma_rebased_off_pentagons(c.0, Dir { index: left_of(c.1.index) }, rx, ry);
    let d = turned_left(c.0, c.1, rx, ry);
    lemma_rebased_off_pentagons(adjacent(d.0, d.1), d.1, rx, ry);
}

proof fn lemma_there_and_back_right(pos: CellPos, dir: Dir, rx: int, ry: int)
    requires
        resolution_ok(rx, ry),
        pos.root < ROOT_QUADS,
        strictly_inside(pos, rx, ry),
        dir.at_hex_edge(),
        !pentagon_at(adjacent(pos, dir).x as int, adjacent(pos, dir).y as int, rx, ry),
    ensures
        there_and_back_right(pos, dir, rx, ry) == pos,
{
    lemma_rebased_off_pentagons(adjacent(pos, dir), dir, rx, ry);
    let a = moved_forward(pos, dir, rx, ry);
    lemma_rebased_off_pentagons(a.0, Dir { index: right_of(a.1.index) }, rx, ry);
    let b = turned_right(a.0, a.1, rx, ry);
    lemma_rebased_off_pentagons(b.0, Dir { index: right_of(b.1.index) }, rx, ry);
    let c = turned_right(b.0, b.1, rx, ry);
    lemma_rebased_off_pentagons(c.0, Dir { index: right_of(c.1.index) }, rx, ry);
    let d = turned_right(c.0, c.1, rx, ry);
    lemma_rebased_off_pentagons(adjacent(d.0, d.1), d.1, rx, ry);
}

/// A step forward from strictly inside a quad onto a cell that is no
/// pentagon, then a half turn (three turns by one hexagon edge, either way)
/// and another step forward, come back to the very position one started
/// from, in the same root quad.
pub proof fn lemma_step_there_and_back(pos: CellPos, dir: Dir, rx: int, ry: int)
    requires
        resolution_ok(rx, ry),
        pos.root < ROOT_QUADS,
        strictly_inside(pos, rx, ry),
        dir.at_hex_edge(),
        !pentagon_at(adjacent(pos, dir).x as int, adjacent(pos, dir).y as int, rx, ry),
    ensures
        there_and_back_left(pos, dir, rx, ry) == pos,
        there_and_back_right(pos, dir, rx, ry) == pos,
{
    lemma_there_and_back_left(pos, dir, rx, ry);
    lemma_there_and_back_right(pos, dir, rx, ry);
}

} // verus!
