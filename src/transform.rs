//! Conversion of positions and facings between a root quad's own frame and
//! the apex-relative frame of one of its local triangles.

use vstd::prelude::*;

use crate::grid::{CellPos, Dir, IntCoord};
use crate::triangles::Triangle;

verus! {

/// Bound on the magnitude of coordinates handed to the frame transforms.
pub const MAX_COORD: IntCoord = 0x1000_0000_0000_0000;

/// Bound on a root quad's y resolution; its x resolution is half of it.
pub const MAX_RESOLUTION: IntCoord = 0x0100_0000_0000_0000;

/// The axial vector `(a, b)` rotated clockwise by `steps` hexagon edges, so
/// that the step of facing `d` becomes the step of facing `d + 2 * steps`.
pub open spec fn rotated(a: int, b: int, steps: int) -> (int, int) {
    if steps == 0 {
        (a, b)
    } else if steps == 1 {
        (a + b, -a)
    } else if steps == 2 {
        (b, -a - b)
    } else if steps == 3 {
        (-a, -b)
    } else if steps == 4 {
        (-a - b, a)
    } else {
        (-b, a + b)
    }
}

/// `k` times `rx`, for the apex offsets `k` of the frame table.
pub open spec fn scaled(k: int, rx: int) -> int {
    if k == 0 {
        0
    } else if k == 1 {
        rx
    } else {
        rx + rx
    }
}

pub open spec fn coord_in_box(v: int) -> bool {
    -MAX_COORD <= v <= MAX_COORD
}

/// `pos` may be handed to a frame transform at x resolution `rx`.
pub open spec fn pos_in_box(pos: CellPos, rx: int) -> bool {
    coord_in_box(pos.x as int) && coord_in_box(pos.y as int) && 0 <= rx <= MAX_RESOLUTION
}

/// `pos` and `dir`, given in the root quad's own frame, re-expressed
/// relative to the apex and axes of `tri`.
pub open spec fn spec_world_to_local(pos: CellPos, dir: Dir, rx: int, tri: Triangle) -> (CellPos, Dir) {
    let v = rotated(
        pos.x - scaled(tri.apex_x as int, rx),
        pos.y - scaled(tri.apex_y as int, rx),
        (6 - tri.x_dir / 2) % 6,
    );
    (
        CellPos { root: pos.root, x: v.0 as IntCoord, y: v.1 as IntCoord, z: pos.z },
        Dir { index: ((dir.index + 12 - tri.x_dir) % 12) as u8 },
    )
}

/// `pos` and `dir`, given relative to the apex and axes of `tri`,
/// re-expressed in the root quad's own frame.
pub open spec fn spec_local_to_world(pos: CellPos, dir: Dir, rx: int, tri: Triangle) -> (CellPos, Dir) {
    let v = rotated(pos.x as int, pos.y as int, (tri.x_dir / 2) as int);
    (
        CellPos {
            root: pos.root,
            x: (v.0 + scaled(tri.apex_x as int, rx)) as IntCoord,
            y: (v.1 + scaled(tri.apex_y as int, rx)) as IntCoord,
            z: pos.z,
        },
        Dir { index: ((dir.index + tri.x_dir) % 12) as u8 },
    )
}

/// A frame of the table: apex on a corner of the quad, axes on a facing.
pub open spec fn tri_well_formed(tri: Triangle) -> bool {
    0 <= tri.apex_x <= 1 && 0 <= tri.apex_y <= 2 && tri.x_dir < 12 && tri.x_dir % 2 == 0
}

pub(crate) fn scale(k: IntCoord, rx: IntCoord) -> (r: IntCoord)
    requires
        0 <= k <= 2,
        0 <= rx <= MAX_RESOLUTION,
    ensures
        r == scaled(k as int, rx as int),
{
    if k == 0 {
        0
    } else if k == 1 {
        rx
    } else {
        rx + rx
    }
}

fn rotate(a: IntCoord, b: IntCoord, steps: u8) -> (r: (IntCoord, IntCoord))
    requires
        -2 * MAX_COORD <= a <= 2 * MAX_COORD,
        -2 * MAX_COORD <= b <= 2 * MAX_COORD,
        steps < 6,
    ensures
        r.0 == rotated(a as int, b as int, steps as int).0,
        r.1 == rotated(a as int, b as int, steps as int).1,
{
    match steps {
        0 => (a, b),
        1 => (a + b, -a),
        2 => (b, -a - b),
        3 => (-a, -b),
        4 => (-a - b, a),
        _ => (-b, a + b),
    }
}

/// Re-expresses `pos` and `dir` relative to the apex and axes of `tri`.
pub fn world_to_local(pos: CellPos, dir: Dir, rx: IntCoord, tri: &Triangle) -> (r: (CellPos, Dir))
    requires
        pos_in_box(pos, rx as int),
        tri_well_formed(*tri),
        dir.is_valid(),
    ensures
        r == spec_world_to_local(pos, dir, rx as int, *tri),
{
    let v = rotate(
        pos.x - scale(tri.apex_x, rx),
        pos.y - scale(tri.apex_y, rx),
        (6 - tri.x_dir / 2) % 6,
    );
    (
        CellPos { root: pos.root, x: v.0, y: v.1, z: pos.z },
        Dir { index: (dir.index + 12 - tri.x_dir) % 12 },
    )
}

/// Re-expresses `pos` and `dir`, given relative to the apex and axes of
/// `tri`, in the root quad's own frame.
pub fn local_to_world(pos: CellPos, dir: Dir, rx: IntCoord, tri: &Triangle) -> (r: (CellPos, Dir))
    requires
        pos_in_box(pos, rx as int),
        tri_well_formed(*tri),
        dir.is_valid(),
    ensures
        r == spec_local_to_world(pos, dir, rx as int, *tri),
{
    let v = rotate(pos.x, pos.y, tri.x_dir / 2);
    (
        CellPos { root: pos.root, x: v.0 + scale(tri.apex_x, rx), y: v.1 + scale(tri.apex_y, rx), z: pos.z },
        Dir { index: (dir.index + tri.x_dir) % 12 },
    )
}

/// A position of a quad stays within four x resolutions of the apex in
/// the local coordinates of any frame of the table.
pub proof fn lemma_local_bounds(pos: CellPos, dir: Dir, rx: int, tri: Triangle)
    requires
        0 <= pos.x <= rx + rx,
        0 <= pos.y <= rx + rx,
        0 <= rx <= MAX_RESOLUTION,
        tri_well_formed(tri),
    ensures
        -4 * rx <= spec_world_to_local(pos, dir, rx, tri).0.x <= 4 * rx,
        -4 * rx <= spec_world_to_local(pos, dir, rx, tri).0.y <= 4 * rx,
        spec_world_to_local(pos, dir, rx, tri).0.root == pos.root,
{
}

/// Going into a frame and back out again gives the position and facing one
/// started with: for every frame of the table, every facing, and every
/// position whose coordinates the transforms can hold.
pub proof fn lemma_transform_round_trip(pos: CellPos, dir: Dir, rx: int, tri: Triangle)
    requires
        pos_in_box(pos, rx),
        tri_well_formed(tri),
        dir.is_valid(),
    ensures
        spec_local_to_world(spec_world_to_local(pos, dir, rx, tri).0, spec_world_to_local(pos, dir, rx, tri).1, rx, tri)
            == (pos, dir),
{
}

} // verus!
