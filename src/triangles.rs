//! The fixed table of local frames that tile a root quad, and how each frame
//! continues into its neighbours around its apex.

use vstd::prelude::*;

use crate::grid::{DirIndex, IntCoord, RootIndex};

verus! {

/// Number of local triangles that tile one root quad.
pub const TRIANGLE_COUNT: usize = 12;

/// Number of faces around each triangle apex.
pub const EXITS_PER_TRIANGLE: usize = 5;

/// Where to continue when leaving a local triangle's frame: the triangle
/// whose frame takes over, and how many root quads further on it lies.
#[derive(Clone, Copy, Debug, PartialEq, Eq)]
pub struct Exit {
    pub triangle_index: usize,
    pub root_offset: RootIndex,
}

/// A local frame within a root quad.
///
/// Each root quad is made of four faces of an icosahedron, and each face
/// has three corners. Every corner of every face gives one frame: its apex
/// sits on that corner, its x-axis runs along one edge of the face and its
/// y-axis along the other edge, sixty degrees counterclockwise. Seen from
/// its own frame, every face looks like the face at the north pole.
///
/// The apex is given in units of the quad's x resolution. `exits[k]` is the
/// frame with the same apex on the face `k` steps counterclockwise around
/// that apex (every apex is a pentagon, so there are five).
#[derive(Clone, Copy, Debug, PartialEq, Eq)]
pub struct Triangle {
    pub apex_x: IntCoord,
    pub apex_y: IntCoord,
    pub x_dir: DirIndex,
    pub exits: [Exit; 5],
}

/// The twelve frames of a root quad, three per face, faces ordered from the
/// north pole to the south pole. Root quad `r` has its corners at the north
/// pole `(0, 0)`, at `(1, 0)` and `(0, 1)` on the ring of vertices next to the
/// north pole, at `(1, 1)` and `(0, 2)` on the ring next to the south pole, and
/// at the south pole `(1, 2)`; its corner `(0, 1)` is corner `(1, 0)` of root
/// `r + 1`, and likewise its corner `(0, 2)` is corner `(1, 1)` of root `r + 1`.
#[verifier::opaque]
pub open spec fn triangle(i: int) -> Triangle {
    if i == 0 {
        Triangle {
            apex_x: 0,
            apex_y: 0,
            x_dir: 0,
            exits: [
                Exit { triangle_index: 0, root_offset: 0 },
                Exit { triangle_index: 0, root_offset: 1 },
                Exit { triangle_index: 0, root_offset: 2 },
                Exit { triangle_index: 0, root_offset: 3 },
                Exit { triangle_index: 0, root_offset: 4 },
            ],
        }
    } else if i == 1 {
        Triangle {
            apex_x: 1,
            apex_y: 0,
            x_dir: 8,
            exits: [
                Exit { triangle_index: 1, root_offset: 0 },
                Exit { triangle_index: 2, root_offset: 4 },
                Exit { triangle_index: 4, root_offset: 4 },
                Exit { triangle_index: 6, root_offset: 4 },
                Exit { triangle_index: 3, root_offset: 0 },
            ],
        }
    } else if i == 2 {
        Triangle {
            apex_x: 0,
            apex_y: 1,
            x_dir: 4,
            exits: [
                Exit { triangle_index: 2, root_offset: 0 },
                Exit { triangle_index: 4, root_offset: 0 },
                Exit { triangle_index: 6, root_offset: 0 },
                Exit { triangle_index: 3, root_offset: 1 },
                Exit { triangle_index: 1, root_offset: 1 },
            ],
        }
    } else if i == 3 {
        Triangle {
            apex_x: 1,
            apex_y: 0,
            x_dir: 10,
            exits: [
                Exit { triangle_index: 3, root_offset: 0 },
                Exit { triangle_index: 1, root_offset: 0 },
                Exit { triangle_index: 2, root_offset: 4 },
                Exit { triangle_index: 4, root_offset: 4 },
                Exit { triangle_index: 6, root_offset: 4 },
            ],
        }
    } else if i == 4 {
        Triangle {
            apex_x: 0,
            apex_y: 1,
            x_dir: 2,
            exits: [
                Exit { triangle_index: 4, root_offset: 0 },
                Exit { triangle_index: 6, root_offset: 0 },
                Exit { triangle_index: 3, root_offset: 1 },
                Exit { triangle_index: 1, root_offset: 1 },
                Exit { triangle_index: 2, root_offset: 0 },
            ],
        }
    } else if i == 5 {
        Triangle {
            apex_x: 1,
            apex_y: 1,
            x_dir: 6,
            exits: [
                Exit { triangle_index: 5, root_offset: 0 },
                Exit { triangle_index: 8, root_offset: 4 },
                Exit { triangle_index: 10, root_offset: 4 },
                Exit { triangle_index: 9, root_offset: 0 },
                Exit { triangle_index: 7, root_offset: 0 },
            ],
        }
    } else if i == 6 {
        Triangle {
            apex_x: 0,
            apex_y: 1,
            x_dir: 0,
            exits: [
                Exit { triangle_index: 6, root_offset: 0 },
                Exit { triangle_index: 3, root_offset: 1 },
                Exit { triangle_index: 1, root_offset: 1 },
                Exit { triangle_index: 2, root_offset: 0 },
                Exit { triangle_index: 4, root_offset: 0 },
            ],
        }
    } else if i == 7 {
        Triangle {
            apex_x: 1,
            apex_y: 1,
            x_dir: 8,
            exits: [
                Exit { triangle_index: 7, root_offset: 0 },
                Exit { triangle_index: 5, root_offset: 0 },
                Exit { triangle_index: 8, root_offset: 4 },
                Exit { triangle_index: 10, root_offset: 4 },
                Exit { triangle_index: 9, root_offset: 0 },
            ],
        }
    } else if i == 8 {
        Triangle {
            apex_x: 0,
            apex_y: 2,
            x_dir: 4,
            exits: [
                Exit { triangle_index: 8, root_offset: 0 },
                Exit { triangle_index: 10, root_offset: 0 },
                Exit { triangle_index: 9, root_offset: 1 },
                Exit { triangle_index: 7, root_offset: 1 },
                Exit { triangle_index: 5, root_offset: 1 },
            ],
        }
    } else if i == 9 {
        Triangle {
            apex_x: 1,
            apex_y: 1,
            x_dir: 10,
            exits: [
                Exit { triangle_index: 9, root_offset: 0 },
                Exit { triangle_index: 7, root_offset: 0 },
                Exit { triangle_index: 5, root_offset: 0 },
                Exit { triangle_index: 8, root_offset: 4 },
                Exit { triangle_index: 10, root_offset: 4 },
            ],
        }
    } else if i == 10 {
        Triangle {
            apex_x: 0,
            apex_y: 2,
            x_dir: 2,
            exits: [
                Exit { triangle_index: 10, root_offset: 0 },
                Exit { triangle_index: 9, root_offset: 1 },
                Exit { triangle_index: 7, root_offset: 1 },
                Exit { triangle_index: 5, root_offset: 1 },
                Exit { triangle_index: 8, root_offset: 0 },
            ],
        }
    } else {
        Triangle {
            apex_x: 1,
            apex_y: 2,
            x_dir: 6,
            exits: [
                Exit { triangle_index: 11, root_offset: 0 },
                Exit { triangle_index: 11, root_offset: 4 },
                Exit { triangle_index: 11, root_offset: 3 },
                Exit { triangle_index: 11, root_offset: 2 },
                Exit { triangle_index: 11, root_offset: 1 },
            ],
        }
    }
}

/// Looks up frame `index` of the table.
pub fn get_triangle(index: usize) -> (t: Triangle)
    requires
        index < TRIANGLE_COUNT,
    ensures
        t == triangle(index as int),
{
    reveal(triangle);
    if index == 0 {
        Triangle {
            apex_x: 0,
            apex_y: 0,
            x_dir: 0,
            exits: [
                Exit { triangle_index: 0, root_offset: 0 },
                Exit { triangle_index: 0, root_offset: 1 },
                Exit { triangle_index: 0, root_offset: 2 },
                Exit { triangle_index: 0, root_offset: 3 },
                Exit { triangle_index: 0, root_offset: 4 },
            ],
        }
    } else if index == 1 {
        Triangle {
            apex_x: 1,
            apex_y: 0,
            x_dir: 8,
            exits: [
                Exit { triangle_index: 1, root_offset: 0 },
                Exit { triangle_index: 2, root_offset: 4 },
                Exit { triangle_index: 4, root_offset: 4 },
                Exit { triangle_index: 6, root_offset: 4 },
                Exit { triangle_index: 3, root_offset: 0 },
            ],
        }
    } else if index == 2 {
        Triangle {
            apex_x: 0,
            apex_y: 1,
            x_dir: 4,
            exits: [
                Exit { triangle_index: 2, root_offset: 0 },
                Exit { triangle_index: 4, root_offset: 0 },
                Exit { triangle_index: 6, root_offset: 0 },
                Exit { triangle_index: 3, root_offset: 1 },
                Exit { triangle_index: 1, root_offset: 1 },
            ],
        }
    } else if index == 3 {
        Triangle {
            apex_x: 1,
            apex_y: 0,
            x_dir: 10,
            exits: [
                Exit { triangle_index: 3, root_offset: 0 },
                Exit { triangle_index: 1, root_offset: 0 },
                Exit { triangle_index: 2, root_offset: 4 },
                Exit { triangle_index: 4, root_offset: 4 },
                Exit { triangle_index: 6, root_offset: 4 },
            ],
        }
    } else if index == 4 {
        Triangle {
            apex_x: 0,
            apex_y: 1,
            x_dir: 2,
            exits: [
                Exit { triangle_index: 4, root_offset: 0 },
                Exit { triangle_index: 6, root_offset: 0 },
                Exit { triangle_index: 3, root_offset: 1 },
                Exit { triangle_index: 1, root_offset: 1 },
                Exit { triangle_index: 2, root_offset: 0 },
            ],
        }
    } else if index == 5 {
        Triangle {
            apex_x: 1,
            apex_y: 1,
            x_dir: 6,
            exits: [
                Exit { triangle_index: 5, root_offset: 0 },
                Exit { triangle_index: 8, root_offset: 4 },
                Exit { triangle_index: 10, root_offset: 4 },
                Exit { triangle_index: 9, root_offset: 0 },
                Exit { triangle_index: 7, root_offset: 0 },
            ],
        }
    } else if index == 6 {
        Triangle {
            apex_x: 0,
            apex_y: 1,
            x_dir: 0,
            exits: [
                Exit { triangle_index: 6, root_offset: 0 },
                Exit { triangle_index: 3, root_offset: 1 },
                Exit { triangle_index: 1, root_offset: 1 },
                Exit { triangle_index: 2, root_offset: 0 },
                Exit { triangle_index: 4, root_offset: 0 },
            ],
        }
    } else if index == 7 {
        Triangle {
            apex_x: 1,
            apex_y: 1,
            x_dir: 8,
            exits: [
                Exit { triangle_index: 7, root_offset: 0 },
                Exit { triangle_index: 5, root_offset: 0 },
                Exit { triangle_index: 8, root_offset: 4 },
                Exit { triangle_index: 10, root_offset: 4 },
                Exit { triangle_index: 9, root_offset: 0 },
            ],
        }
    } else if index == 8 {
        Triangle {
            apex_x: 0,
            apex_y: 2,
            x_dir: 4,
            exits: [
                Exit { triangle_index: 8, root_offset: 0 },
                Exit { triangle_index: 10, root_offset: 0 },
                Exit { triangle_index: 9, root_offset: 1 },
                Exit { triangle_index: 7, root_offset: 1 },
                Exit { triangle_index: 5, root_offset: 1 },
            ],
        }
    } else if index == 9 {
        Triangle {
            apex_x: 1,
            apex_y: 1,
            x_dir: 10,
            exits: [
                Exit { triangle_index: 9, root_offset: 0 },
                Exit { triangle_index: 7, root_offset: 0 },
                Exit { triangle_index: 5, root_offset: 0 },
                Exit { triangle_index: 8, root_offset: 4 },
                Exit { triangle_index: 10, root_offset: 4 },
            ],
        }
    } else if index == 10 {
        Triangle {
            apex_x: 0,
            apex_y: 2,
            x_dir: 2,
            exits: [
                Exit { triangle_index: 10, root_offset: 0 },
                Exit { triangle_index: 9, root_offset: 1 },
                Exit { triangle_index: 7, root_offset: 1 },
                Exit { triangle_index: 5, root_offset: 1 },
                Exit { triangle_index: 8, root_offset: 0 },
            ],
        }
    } else {
        Triangle {
            apex_x: 1,
            apex_y: 2,
            x_dir: 6,
            exits: [
                Exit { triangle_index: 11, root_offset: 0 },
                Exit { triangle_index: 11, root_offset: 4 },
                Exit { triangle_index: 11, root_offset: 3 },
                Exit { triangle_index: 11, root_offset: 2 },
                Exit { triangle_index: 11, root_offset: 1 },
            ],
        }
    }
}

} // verus!
