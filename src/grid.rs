//! Facings around a cell, cell positions, and the steps between neighbouring
//! hexagonal cells.

use vstd::prelude::*;

verus! {

/// Coordinate along one axis of a root quad's grid.
pub type IntCoord = i64;

/// Index of a root quad.
pub type RootIndex = u8;

/// Index of a facing around a cell, on a twelve-point compass.
pub type DirIndex = u8;

/// Number of root quads that tile the globe.
pub const ROOT_QUADS: u8 = 5;

/// Number of hexagon edges around a cell.
pub const NEIGHBOR_OFFSETS_LEN: usize = 6;

/// A facing around a cell. Even indices point at the six hexagon edges,
/// odd indices at the six hexagon vertices between them. Indices grow
/// clockwise: index 0 points along a root quad's x-axis and index 10 along
/// its y-axis, sixty degrees counterclockwise from it.
#[derive(Clone, Copy, Debug, PartialEq, Eq, Hash)]
pub struct Dir {
    pub index: DirIndex,
}

/// The facing one hexagon edge counterclockwise of `i`.
pub open spec fn left_of(i: DirIndex) -> DirIndex {
    ((i + 10) % 12) as DirIndex
}

/// The facing one hexagon edge clockwise of `i`.
pub open spec fn right_of(i: DirIndex) -> DirIndex {
    ((i + 2) % 12) as DirIndex
}

impl Dir {
    pub open spec fn is_valid(self) -> bool {
        self.index < 12
    }

    pub open spec fn at_hex_edge(self) -> bool {
        self.index < 12 && self.index % 2 == 0
    }

    pub fn new(index: DirIndex) -> (d: Dir)
        requires
            index < 12,
        ensures
            d.index == index,
    {
        Dir { index }
    }

    /// Whether this facing points at an edge of the hexagon rather than at
    /// one of its vertices.
    pub fn points_at_hex_edge(&self) -> (r: bool)
        ensures
            r == (self.index % 2 == 0),
    {
        self.index % 2 == 0
    }

    /// Rotates counterclockwise by one hexagon edge.
    pub fn next_hex_edge_left(self) -> (r: Dir)
        requires
            self.is_valid(),
        ensures
            r.index == left_of(self.index),
    {
        Dir { index: (self.index + 10) % 12 }
    }

    /// Rotates clockwise by one hexagon edge.
    pub fn next_hex_edge_right(self) -> (r: Dir)
        requires
            self.is_valid(),
        ensures
            r.index == right_of(self.index),
    {
        Dir { index: (self.index + 2) % 12 }
    }
}

/// A cell of the globe: the root quad that owns it, its coordinates in that
/// quad's grid, and its altitude.
#[derive(Clone, Copy, Debug, PartialEq, Eq, Hash)]
pub struct CellPos {
    pub root: RootIndex,
    pub x: IntCoord,
    pub y: IntCoord,
    pub z: IntCoord,
}

/// The `(dx, dy)` step to the neighbouring cell across hexagon edge `edge`,
/// where edge `e` is the one that facing `2 * e` points at.
pub open spec fn spec_neighbor_offset(edge: int) -> (int, int) {
    if edge == 0 {
        (1, 0)
    } else if edge == 1 {
        (1, -1)
    } else if edge == 2 {
        (0, -1)
    } else if edge == 3 {
        (-1, 0)
    } else if edge == 4 {
        (-1, 1)
    } else {
        (0, 1)
    }
}

pub fn neighbor_offset(edge: usize) -> (r: (IntCoord, IntCoord))
    requires
        edge < NEIGHBOR_OFFSETS_LEN,
    ensures
        r.0 == spec_neighbor_offset(edge as int).0,
        r.1 == spec_neighbor_offset(edge as int).1,
{
    match edge {
        0 => (1, 0),
        1 => (1, -1),
        2 => (0, -1),
        3 => (-1, 0),
        4 => (-1, 1),
        _ => (0, 1),
    }
}

/// Six turns by one hexagon edge in the same sense give back the facing
/// one started with, whichever the sense and whichever the facing.
pub proof fn lemma_six_turns_return(i: DirIndex)
    requires
        i < 12,
    ensures
        left_of(left_of(left_of(left_of(left_of(left_of(i)))))) == i,
        right_of(right_of(right_of(right_of(right_of(right_of(i)))))) == i,
{
    let l1 = left_of(i);
    let l2 = left_of(l1);
    let l3 = left_of(l2);
    let l4 = left_of(l3);
    let l5 = left_of(l4);
    assert(l1 as int == (i + 10) % 12);
    assert(l2 as int == (i + 8) % 12);
    assert(l3 as int == (i + 6) % 12);
    assert(l4 as int == (i + 4) % 12);
    assert(l5 as int == (i + 2) % 12);
    let r1 = right_of(i);
    let r2 = right_of(r1);
    let r3 = right_of(r2);
    let r4 = right_of(r3);
    let r5 = right_of(r4);
    assert(r1 as int == (i + 2) % 12);
    assert(r2 as int == (i + 4) % 12);
    assert(r3 as int == (i + 6) % 12);
    assert(r4 as int == (i + 8) % 12);
    assert(r5 as int == (i + 10) % 12);
}

} // verus!
