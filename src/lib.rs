//! Movement primitives for entities on the surface of a globe built from
//! five quadrilateral root grids glued along their edges and at the poles.
//!
//! Every position is kept in the canonical frame of the root quad that owns
//! it: after each step or turn, a position on a root boundary is re-expressed
//! in the frame of whichever root quad its facing points into.

mod canonical_form;
mod edge_crossing;
mod grid;
mod movement;
mod transform;
mod triangles;

pub use grid::{neighbor_offset, CellPos, Dir, DirIndex, IntCoord, RootIndex, NEIGHBOR_OFFSETS_LEN, ROOT_QUADS};
pub use movement::{
    adjacent_pos_in_dir, is_pentagon, move_forward, turn_left_by_one_hex_edge, turn_right_by_one_hex_edge,
    InvalidDirection,
};
pub use canonical_form::Motion;
pub use transform::{local_to_world, world_to_local, MAX_COORD, MAX_RESOLUTION};
pub use triangles::{get_triangle, Exit, Triangle, EXITS_PER_TRIANGLE, TRIANGLE_COUNT};
