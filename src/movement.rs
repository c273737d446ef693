//! Stepping and turning on the globe: adjacency, the choice of local frame
//! on a quad's boundary, and re-expressing a position in the root quad that
//! its facing points into.

use vstd::prelude::*;

use crate::grid::{left_of, spec_neighbor_offset, neighbor_offset, right_of, CellPos, Dir, IntCoord, ROOT_QUADS};
use crate::transform::{
    coord_in_box, lemma_local_bounds, spec_local_to_world, local_to_world, scaled, tri_well_formed, spec_world_to_local,
    world_to_local, scale, MAX_RESOLUTION,
};
use crate::canonical_form::{lemma_move_forward_keeps_canonical, lemma_turns_keep_canonical};
use crate::triangles::{get_triangle, triangle, Exit, Triangle, TRIANGLE_COUNT};

verus! {

/// A step or turn was asked for with a facing that points at a hexagon
/// vertex rather than at one of its edges.
#[derive(Clone, Copy, Debug, PartialEq, Eq)]
pub struct InvalidDirection;

/// A world's resolution: `rx` cells along a root quad's x-axis and twice
/// as many along its y-axis, so that the quad holds four whole faces of the
/// icosahedron.
pub open spec fn resolution_ok(rx: int, ry: int) -> bool {
    0 < rx && ry == rx + rx && ry <= MAX_RESOLUTION
}

/// `pos` lies within the closed bounds of its root quad.
pub open spec fn within_root(pos: CellPos, rx: int, ry: int) -> bool {
    0 <= pos.x <= rx && 0 <= pos.y <= ry && pos.root < ROOT_QUADS
}

/// `pos` lies strictly inside its root quad, away from every edge.
pub open spec fn strictly_inside(pos: CellPos, rx: int, ry: int) -> bool {
    0 < pos.x < rx && 0 < pos.y < ry
}

/// The six points where a corner of the quad meets an icosahedron vertex.
pub open spec fn pentagon_at(x: int, y: int, rx: int, ry: int) -> bool {
    (x == 0 && y == 0) || (x == 0 && y == rx) || (x == 0 && y == ry) || (x == rx && y == 0)
        || (x == rx && y == rx) || (x == rx && y == ry)
}

/// The two points of a quad where all five root quads meet.
pub open spec fn pole_at(x: int, y: int, rx: int, ry: int) -> bool {
    (x == 0 && y == 0) || (x == rx && y == ry)
}

/// The cell across the hexagon edge that `dir` points at, in the same root
/// quad and whether or not it lies within its bounds.
pub open spec fn adjacent(pos: CellPos, dir: Dir) -> CellPos {
    let off = spec_neighbor_offset((dir.index / 2) as int);
    CellPos { root: pos.root, x: (pos.x + off.0) as IntCoord, y: (pos.y + off.1) as IntCoord, z: pos.z }
}

/// `pos` is within its root, `dir` points at a hexagon edge, and the cell
/// it points at is within the same root: the form in which every position
/// is kept.
pub open spec fn canonical(pos: CellPos, dir: Dir, rx: int, ry: int) -> bool {
    within_root(pos, rx, ry) && dir.at_hex_edge() && within_root(adjacent(pos, dir), rx, ry)
}

pub open spec fn abs_int(v: int) -> int {
    if v < 0 {
        -v
    } else {
        v
    }
}

/// Steps along the two axes from the apex of `tri` to `(x, y)`.
pub open spec fn apex_distance(tri: Triangle, x: int, y: int, rx: int) -> int {
    abs_int(x - scaled(tri.apex_x as int, rx)) + abs_int(y - scaled(tri.apex_y as int, rx))
}

/// First frame of the face that holds `(x, y)`.
pub open spec fn band_start(x: int, y: int, rx: int, ry: int) -> int {
    if x + y < rx {
        0
    } else if y < rx {
        3
    } else if x + y < ry {
        6
    } else {
        9
    }
}

/// The frame of the face holding `(x, y)` whose apex is nearest to it; of
/// equally near ones, the first.
#[verifier::opaque]
pub open spec fn closest_triangle(x: int, y: int, rx: int, ry: int) -> int {
    let s = band_start(x, y, rx, ry);
    let d0 = apex_distance(triangle(s), x, y, rx);
    let d1 = apex_distance(triangle(s + 1), x, y, rx);
    let d2 = apex_distance(triangle(s + 2), x, y, rx);
    if d0 <= d1 && d0 <= d2 {
        s
    } else if d1 <= d2 {
        s + 1
    } else {
        s + 2
    }
}

/// Angle, in twelfths of a turn and taken the short way round, between
/// the middle axis of `tri` and facing `d`.
pub open spec fn mid_axis_gap(tri: Triangle, d: int) -> int {
    let middle = (tri.x_dir + 11) % 12;
    let a = middle - d;
    abs_int(
        if a > 6 {
            a - 12
        } else if a < -6 {
            a + 12
        } else {
            a
        },
    )
}

pub open spec fn apex_on(tri: Triangle, x: int, y: int, rx: int) -> bool {
    x == scaled(tri.apex_x as int, rx) && y == scaled(tri.apex_y as int, rx)
}

/// Among the first `n` frames, the first of those with their apex on
/// `(x, y)` whose middle axis is closest to facing `d`; `TRIANGLE_COUNT`
/// where there is none.
pub open spec fn closest_mid_axis_among(x: int, y: int, d: int, rx: int, n: nat) -> int
    decreases n,
{
    if n == 0 {
        TRIANGLE_COUNT as int
    } else {
        let prev = closest_mid_axis_among(x, y, d, rx, (n - 1) as nat);
        let t = triangle(n - 1);
        if apex_on(t, x, y, rx) && (prev == TRIANGLE_COUNT || mid_axis_gap(t, d) < mid_axis_gap(
            triangle(prev),
            d,
        )) {
            n - 1
        } else {
            prev
        }
    }
}

#[verifier::opaque]
pub open spec fn closest_mid_axis(x: int, y: int, d: int, rx: int) -> int {
    closest_mid_axis_among(x, y, d, rx, TRIANGLE_COUNT as nat)
}

/// The frame that a position on the boundary of its quad is re-expressed in.
pub open spec fn chosen_triangle(pos: CellPos, dir: Dir, rx: int, ry: int) -> int {
    if pentagon_at(pos.x as int, pos.y as int, rx, ry) {
        closest_mid_axis(pos.x as int, pos.y as int, dir.index as int, rx)
    } else {
        closest_triangle(pos.x as int, pos.y as int, rx, ry)
    }
}

/// Leaves a frame by `exit`: `pos` and `dir`, given in the frame that the
/// exit names, re-expressed in its root quad's own frame.
pub open spec fn through_exit(pos: CellPos, dir: Dir, rx: int, exit: Exit) -> (CellPos, Dir) {
    spec_local_to_world(
        CellPos { root: ((pos.root + exit.root_offset) % 5) as u8, ..pos },
        dir,
        rx,
        triangle(exit.triangle_index as int),
    )
}

/// `pos` and `dir` in the canonical frame: unchanged away from the quad's
/// edges, otherwise re-expressed through the chosen frame in whichever
/// root quad `dir` points into.
#[verifier::opaque]
pub open spec fn rebased(pos: CellPos, dir: Dir, rx: int, ry: int) -> (CellPos, Dir) {
    if strictly_inside(pos, rx, ry) {
        (pos, dir)
    } else {
        let tri = triangle(chosen_triangle(pos, dir, rx, ry));
        let local = spec_world_to_local(pos, dir, rx, tri);
        let lp = local.0;
        let ld = local.1;
        let next = adjacent(lp, ld);
        if next.x >= 0 && next.y >= 0 {
            through_exit(lp, ld, rx, tri.exits[0])
        } else if next.x < 0 {
            through_exit(
                CellPos { x: lp.y, y: 0, ..lp },
                Dir { index: right_of(ld.index) },
                rx,
                tri.exits[1],
            )
        } else {
            through_exit(
                CellPos { x: 0, y: lp.x, ..lp },
                Dir { index: left_of(ld.index) },
                rx,
                tri.exits[4],
            )
        }
    }
}

/// Position and facing after one step forward.
pub open spec fn moved_forward(pos: CellPos, dir: Dir, rx: int, ry: int) -> (CellPos, Dir) {
    rebased(adjacent(pos, dir), dir, rx, ry)
}

/// Position and facing after turning one hexagon edge counterclockwise.
pub open spec fn turned_left(pos: CellPos, dir: Dir, rx: int, ry: int) -> (CellPos, Dir) {
    rebased(pos, Dir { index: left_of(dir.index) }, rx, ry)
}

/// Position and facing after turning one hexagon edge clockwise.
pub open spec fn turned_right(pos: CellPos, dir: Dir, rx: int, ry: int) -> (CellPos, Dir) {
    rebased(pos, Dir { index: right_of(dir.index) }, rx, ry)
}

/// Every frame of the table is well formed and its exits name frames of
/// the table.
pub proof fn lemma_table_well_formed(i: int, k: int)
    requires
        0 <= i < TRIANGLE_COUNT,
        0 <= k < 5,
    ensures
        tri_well_formed(triangle(i)),
        triangle(i).exits[k].triangle_index < TRIANGLE_COUNT,
        triangle(i).exits[k].root_offset < ROOT_QUADS,
{
    reveal(triangle);
}

/// Returns the cell across the hexagon edge that `dir` points at, in the
/// same root quad, whether or not it lies within that quad's bounds; or
/// `InvalidDirection` where `dir` points at a vertex.
pub fn adjacent_pos_in_dir(pos: CellPos, dir: Dir) -> (r: Result<CellPos, InvalidDirection>)
    requires
        coord_in_box(pos.x as int),
        coord_in_box(pos.y as int),
        dir.is_valid(),
    ensures
        match r {
            Ok(p) => dir.at_hex_edge() && p == adjacent(pos, dir),
            Err(_) => !dir.at_hex_edge(),
        },
{
    if !dir.points_at_hex_edge() {
        return Err(InvalidDirection);
    }
    // Facing 2 * e points at edge e.
    let edge_index = (dir.index / 2) as usize;
    let (dx, dy) = neighbor_offset(edge_index);
    Ok(CellPos { root: pos.root, x: pos.x + dx, y: pos.y + dy, z: pos.z })
}

/// Whether `pos` sits on one of the six corners of its quad where the
/// grid meets a pentagon.
pub fn is_pentagon(pos: &CellPos, resolution: [IntCoord; 2]) -> (r: bool)
    ensures
        r == pentagon_at(pos.x as int, pos.y as int, resolution[0] as int, resolution[1] as int),
{
    pos.x == 0 && pos.y == 0 || pos.x == 0 && pos.y == resolution[0] || pos.x == 0 && pos.y
        == resolution[1] || pos.x == resolution[0] && pos.y == 0 || pos.x == resolution[0] && pos.y
        == resolution[0] || pos.x == resolution[0] && pos.y == resolution[1]
}

fn abs_coord(v: IntCoord) -> (r: IntCoord)
    requires
        v > IntCoord::MIN,
    ensures
        r == abs_int(v as int),
{
    if v < 0 {
        -v
    } else {
        v
    }
}

/// Steps along the two axes from the apex of `tri` to `pos`.
fn hex_distance_from_apex(tri: &Triangle, pos: &CellPos, rx: IntCoord) -> (r: IntCoord)
    requires
        tri_well_formed(*tri),
        0 <= rx <= MAX_RESOLUTION,
        0 <= pos.x <= MAX_RESOLUTION,
        0 <= pos.y <= MAX_RESOLUTION,
    ensures
        r == apex_distance(*tri, pos.x as int, pos.y as int, rx as int),
{
    // Both parts of the apex are expressed in terms of the x resolution.
    abs_coord(pos.x - scale(tri.apex_x, rx)) + abs_coord(pos.y - scale(tri.apex_y, rx))
}

/// Picks the frame with the closest apex among those oriented such that
/// `pos` lies between their x-axis and y-axis, which are the three frames
/// of the face that holds `pos`. Not meant for positions on a pentagon,
/// where several frames share an apex.
fn closest_triangle_to_point(pos: &CellPos, resolution: [IntCoord; 2]) -> (r: usize)
    requires
        resolution_ok(resolution[0] as int, resolution[1] as int),
        within_root(*pos, resolution[0] as int, resolution[1] as int),
    ensures
        r == closest_triangle(pos.x as int, pos.y as int, resolution[0] as int, resolution[1] as int),
        r < TRIANGLE_COUNT,
{
    reveal(closest_triangle);
    let rx = resolution[0];
    let ry = resolution[1];
    // Picking a differently oriented frame with the same apex would
    // sometimes carry positions into a neighbouring quad for no reason.
    let start: usize = if pos.x + pos.y < rx {
        0
    } else if pos.y < rx {
        3
    } else if pos.x + pos.y < ry {
        6
    } else {
        9
    };
    proof {
        lemma_table_well_formed(start as int, 0);
        lemma_table_well_formed(start as int + 1, 0);
        lemma_table_well_formed(start as int + 2, 0);
    }
    let d0 = hex_distance_from_apex(&get_triangle(start), pos, rx);
    let d1 = hex_distance_from_apex(&get_triangle(start + 1), pos, rx);
    let d2 = hex_distance_from_apex(&get_triangle(start + 2), pos, rx);
    // Of equally close frames, keep the first.
    if d0 <= d1 && d0 <= d2 {
        start
    } else if d1 <= d2 {
        start + 1
    } else {
        start + 2
    }
}

/// Angle, in twelfths of a turn, between the middle axis of `tri` (half
/// way between its x-axis and y-axis) and `dir`.
fn mid_axis_gap_to(tri: &Triangle, dir: &Dir) -> (r: i64)
    requires
        tri.x_dir < 12,
        dir.is_valid(),
    ensures
        r == mid_axis_gap(*tri, dir.index as int),
{
    let middle_axis_dir: i64 = ((tri.x_dir + 11) % 12) as i64;
    let mut a: i64 = middle_axis_dir - dir.index as i64;
    if a > 6 {
        a = a - 12;
    } else if a < -6 {
        a = a + 12;
    }
    abs_coord(a)
}

/// Of the frames whose apex is on `pos` (one to three of them where `pos`
/// is a pentagon, none elsewhere), returns the first whose middle axis is
/// closest to `dir`, or `TRIANGLE_COUNT` where there is none. Choosing by
/// facing keeps a turn on a pentagon from re-expressing the position in a
/// neighbouring quad without need.
fn triangle_on_pos_with_closest_mid_axis(pos: &CellPos, dir: &Dir, resolution: [IntCoord; 2]) -> (r:
    usize)
    requires
        resolution_ok(resolution[0] as int, resolution[1] as int),
        dir.is_valid(),
    ensures
        r == closest_mid_axis(pos.x as int, pos.y as int, dir.index as int, resolution[0] as int),
{
    reveal(closest_mid_axis);
    let rx = resolution[0];
    let mut best: usize = TRIANGLE_COUNT;
    let mut best_gap: i64 = 0;
    let mut i: usize = 0;
    while i < TRIANGLE_COUNT
        invariant
            i <= TRIANGLE_COUNT,
            resolution_ok(rx as int, resolution[1] as int),
            dir.is_valid(),
            best == closest_mid_axis_among(pos.x as int, pos.y as int, dir.index as int, rx as int, i as nat),
            best == TRIANGLE_COUNT || best < i,
            best < TRIANGLE_COUNT ==> best_gap == mid_axis_gap(triangle(best as int), dir.index as int),
        decreases TRIANGLE_COUNT - i,
    {
        proof {
            lemma_table_well_formed(i as int, 0);
        }
        let tri = get_triangle(i);
        if pos.x == scale(tri.apex_x, rx) && pos.y == scale(tri.apex_y, rx) {
            let gap = mid_axis_gap_to(&tri, dir);
            if best == TRIANGLE_COUNT || gap < best_gap {
                best = i;
                best_gap = gap;
            }
        }
        i = i + 1;
    }
    best
}

/// Every pentagon of a quad is the apex of at least one frame.
proof fn lemma_pentagon_has_frame(x: int, y: int, d: int, rx: int, ry: int)
    requires
        resolution_ok(rx, ry),
        pentagon_at(x, y, rx, ry),
    ensures
        closest_mid_axis(x, y, d, rx) < TRIANGLE_COUNT,
{
    reveal(triangle);
    reveal(closest_mid_axis);
    reveal_with_fuel(closest_mid_axis_among, 13);
}

/// Leaves the current frame by `exit`: moves on by the exit's root offset
/// and re-expresses `pos` and `dir` from the frame the exit names in that
/// root quad's own frame.
fn transform_into_exit_triangle(pos: &mut CellPos, dir: &mut Dir, resolution: [IntCoord; 2], exit: &Exit)
    requires
        resolution_ok(resolution[0] as int, resolution[1] as int),
        old(pos).root < ROOT_QUADS,
        -4 * MAX_RESOLUTION <= old(pos).x <= 4 * MAX_RESOLUTION,
        -4 * MAX_RESOLUTION <= old(pos).y <= 4 * MAX_RESOLUTION,
        old(dir).is_valid(),
        exit.triangle_index < TRIANGLE_COUNT,
        exit.root_offset < ROOT_QUADS,
    ensures
        (*final(pos), *final(dir)) == through_exit(*old(pos), *old(dir), resolution[0] as int, *exit),
{
    proof {
        lemma_table_well_formed(exit.triangle_index as int, 0);
    }
    let exit_tri = get_triangle(exit.triangle_index);
    pos.root = (pos.root + exit.root_offset) % ROOT_QUADS;
    let (new_pos, new_dir) = local_to_world(*pos, *dir, resolution[0], &exit_tri);
    *pos = new_pos;
    *dir = new_dir;
}

/// Re-expresses `pos` and `dir` in the frame of the root quad that `dir`
/// points into, where `pos` lies on the boundary of its quad; leaves them
/// alone where it lies strictly inside.
#[verifier::spinoff_prover]
#[verifier::rlimit(40)]
fn maybe_rebase_on_adjacent_root(pos: &mut CellPos, dir: &mut Dir, resolution: [IntCoord; 2])
    requires
        resolution_ok(resolution[0] as int, resolution[1] as int),
        within_root(*old(pos), resolution[0] as int, resolution[1] as int),
        old(dir).at_hex_edge(),
    ensures
        (*final(pos), *final(dir)) == rebased(
            *old(pos),
            *old(dir),
            resolution[0] as int,
            resolution[1] as int,
        ),
{
    reveal(rebased);
    let rx = resolution[0];
    let ry = resolution[1];
    // Away from the quad's edges there is nothing to do.
    let away_from_root_edges = pos.x > 0 && pos.y > 0 && pos.x < rx && pos.y < ry;
    if away_from_root_edges {
        return;
    }
    let tri_index = if is_pentagon(pos, resolution) {
        // Several frames share this apex: pick the one whose middle axis
        // is closest to `dir`, which matters most when turning in place.
        proof {
            lemma_pentagon_has_frame(pos.x as int, pos.y as int, dir.index as int, rx as int, ry as int);
        }
        triangle_on_pos_with_closest_mid_axis(pos, dir, resolution)
    } else {
        // Pick the closest frame oriented such that `pos` lies between its
        // x-axis and y-axis.
        closest_triangle_to_point(pos, resolution)
    };
    proof {
        lemma_table_well_formed(tri_index as int, 0);
        lemma_table_well_formed(tri_index as int, 1);
        lemma_table_well_formed(tri_index as int, 4);
    }
    let tri = get_triangle(tri_index);
    // Seen from this frame, the position sits on a face at the north pole.
    proof {
        lemma_local_bounds(*pos, *dir, rx as int, tri);
    }
    let (new_pos, new_dir) = world_to_local(*pos, *dir, rx, &tri);
    *pos = new_pos;
    *dir = new_dir;
    let next_pos = match adjacent_pos_in_dir(*pos, *dir) {
        Ok(p) => p,
        Err(_) => {
            // Frames turn facings by whole hexagon edges.
            proof {
                assert(false);
            }
            return;
        },
    };
    if next_pos.x >= 0 && next_pos.y >= 0 {
        // Still within this quad: stay in the same frame.
        transform_into_exit_triangle(pos, dir, resolution, &tri.exits[0]);
    } else if next_pos.x < 0 {
        // Moving east around the apex.
        pos.x = pos.y;
        pos.y = 0;
        *dir = dir.next_hex_edge_right();
        transform_into_exit_triangle(pos, dir, resolution, &tri.exits[1]);
    } else {
        // Moving west around the apex; with `next_pos.x` not negative this
        // is the only case left.
        pos.y = pos.x;
        pos.x = 0;
        *dir = dir.next_hex_edge_left();
        transform_into_exit_triangle(pos, dir, resolution, &tri.exits[4]);
    }
}

/// Moves `pos` one cell forward in the direction `dir` points, then
/// re-expresses it in the frame of whichever root quad `dir` now points
/// into. Returns `InvalidDirection`, and changes nothing, where `dir`
/// points at a vertex of the cell rather than at an edge.
///
/// `pos` must lie within the bounds of its root quad, and so must the cell
/// ahead: where `pos` is on the boundary between two quads, `dir` points
/// into this quad or along its edge, never out of it. The step then lands
/// within bounds, and keeps canonical form unless it lands on a pole.
pub fn move_forward(pos: &mut CellPos, dir: &mut Dir, resolution: [IntCoord; 2]) -> (r: Result<
    (),
    InvalidDirection,
>)
    requires
        resolution_ok(resolution[0] as int, resolution[1] as int),
        within_root(*old(pos), resolution[0] as int, resolution[1] as int),
        old(dir).is_valid(),
        old(dir).at_hex_edge() ==> within_root(
            adjacent(*old(pos), *old(dir)),
            resolution[0] as int,
            resolution[1] as int,
        ),
    ensures
        r is Err <==> !old(dir).at_hex_edge(),
        r is Err ==> *final(pos) == *old(pos) && *final(dir) == *old(dir),
        r is Ok ==> (*final(pos), *final(dir)) == moved_forward(
            *old(pos),
            *old(dir),
            resolution[0] as int,
            resolution[1] as int,
        ),
        within_root(*final(pos), resolution[0] as int, resolution[1] as int),
        canonical(*old(pos), *old(dir), resolution[0] as int, resolution[1] as int) && !pole_at(
            adjacent(*old(pos), *old(dir)).x as int,
            adjacent(*old(pos), *old(dir)).y as int,
            resolution[0] as int,
            resolution[1] as int,
        ) ==> canonical(*final(pos), *final(dir), resolution[0] as int, resolution[1] as int),
{
    proof {
        if old(dir).at_hex_edge() {
            lemma_move_forward_keeps_canonical(*old(pos), *old(dir), resolution[0] as int, resolution[1] as int);
        }
    }
    // Only moving into an immediately adjacent cell is allowed. Within a
    // quad both cells can be treated as hexagons: pentagons matter only at
    // the interface between quads, which the rebase below deals with.
    if !dir.points_at_hex_edge() {
        return Err(InvalidDirection);
    }
    *pos = adjacent_pos_in_dir(*pos, *dir)?;
    maybe_rebase_on_adjacent_root(pos, dir, resolution);
    Ok(())
}

/// Turns `dir` counterclockwise by one hexagon edge without moving, then
/// re-expresses `pos` and `dir` in the frame of whichever root quad `dir`
/// now points into: on a pentagon even a turn in place can call for that.
/// Returns `InvalidDirection`, and changes nothing, where `dir` points at a
/// vertex of the cell rather than at an edge.
///
/// `pos` must lie within the bounds of its root quad. A turn from canonical
/// form keeps canonical form.
pub fn turn_left_by_one_hex_edge(pos: &mut CellPos, dir: &mut Dir, resolution: [IntCoord; 2]) -> (r:
    Result<(), InvalidDirection>)
    requires
        resolution_ok(resolution[0] as int, resolution[1] as int),
        within_root(*old(pos), resolution[0] as int, resolution[1] as int),
        old(dir).is_valid(),
    ensures
        r is Err <==> !old(dir).at_hex_edge(),
        r is Err ==> *final(pos) == *old(pos) && *final(dir) == *old(dir),
        r is Ok ==> (*final(pos), *final(dir)) == turned_left(
            *old(pos),
            *old(dir),
            resolution[0] as int,
            resolution[1] as int,
        ),
        canonical(*old(pos), *old(dir), resolution[0] as int, resolution[1] as int) ==> canonical(
            *final(pos),
            *final(dir),
            resolution[0] as int,
            resolution[1] as int,
        ),
{
    proof {
        if canonical(*old(pos), *old(dir), resolution[0] as int, resolution[1] as int) {
            lemma_turns_keep_canonical(*old(pos), *old(dir), resolution[0] as int, resolution[1] as int);
        }
    }
    // Only turning from and to directions valid for moving forward is allowed.
    if !dir.points_at_hex_edge() {
        return Err(InvalidDirection);
    }
    *dir = dir.next_hex_edge_left();
    maybe_rebase_on_adjacent_root(pos, dir, resolution);
    Ok(())
}

/// Turns `dir` clockwise by one hexagon edge without moving, then
/// re-expresses `pos` and `dir` in the frame of whichever root quad `dir`
/// now points into: on a pentagon even a turn in place can call for that.
/// Returns `InvalidDirection`, and changes nothing, where `dir` points at a
/// vertex of the cell rather than at an edge.
///
/// `pos` must lie within the bounds of its root quad. A turn from canonical
/// form keeps canonical form.
pub fn turn_right_by_one_hex_edge(pos: &mut CellPos, dir: &mut Dir, resolution: [IntCoord; 2]) -> (r:
    Result<(), InvalidDirection>)
    requires
        resolution_ok(resolution[0] as int, resolution[1] as int),
        within_root(*old(pos), resolution[0] as int, resolution[1] as int),
        old(dir).is_valid(),
    ensures
        r is Err <==> !old(dir).at_hex_edge(),
        r is Err ==> *final(pos) == *old(pos) && *final(dir) == *old(dir),
        r is Ok ==> (*final(pos), *final(dir)) == turned_right(
            *old(pos),
            *old(dir),
            resolution[0] as int,
            resolution[1] as int,
        ),
        canonical(*old(pos), *old(dir), resolution[0] as int, resolution[1] as int) ==> canonical(
            *final(pos),
            *final(dir),
            resolution[0] as int,
            resolution[1] as int,
        ),
{
    proof {
        if canonical(*old(pos), *old(dir), resolution[0] as int, resolution[1] as int) {
            lemma_turns_keep_canonical(*old(pos), *old(dir), resolution[0] as int, resolution[1] as int);
        }
    }
    // Only turning from and to directions valid for moving forward is allowed.
    if !dir.points_at_hex_edge() {
        return Err(InvalidDirection);
    }
    *dir = dir.next_hex_edge_right();
    maybe_rebase_on_adjacent_root(pos, dir, resolution);
    Ok(())
}

} // verus!
