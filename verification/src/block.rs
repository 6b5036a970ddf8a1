//! The active piece: its anchor in grid coordinates, its kind, its
//! occupied-row count, and the fixed flag set once it has landed.
use vstd::prelude::*;

use crate::shapes::Tile;
use crate::shapes::occ;

verus! {

/// The single falling piece. `(x, y)` is the top-left corner of its 4x4
/// mask in grid coordinates; `height` is the number of mask rows holding a
/// set cell; `fixed` marks a landed piece, which never moves again.
#[derive(Clone, Copy, PartialEq, Eq, Structural, Debug)]
pub struct Block {
    pub x: u16,
    pub y: u16,
    pub height: u16,
    pub fixed: bool,
    pub tile: Tile,
}

/// Coordinate arithmetic for a move: the delta is applied in signed
/// arithmetic and the result clamped to the coordinate type's range, so a
/// negative result stops at 0 instead of wrapping.
pub open spec fn sat_coord(v: int) -> u16 {
    if v < 0 {
        0
    } else if v > 0xFFFF {
        0xFFFF
    } else {
        v as u16
    }
}

/// `b` displaced by `(dx, dy)`, coordinates clamped by `sat_coord`.
pub open spec fn moved(b: Block, dx: int, dy: int) -> Block {
    Block { x: sat_coord(b.x + dx), y: sat_coord(b.y + dy), ..b }
}

impl Block {
    /// A freshly spawned piece: not yet landed; its height is filled in
    /// when the catalog mask is scanned (`Game::add_block`).
    pub fn new(x: u16, y: u16, tile: Tile) -> (b: Block)
        ensures
            b == (Block { x, y, height: 0, fixed: false, tile }),
    {
        Block { x, y, height: 0, tile, fixed: false }
    }

    /// Whether grid cell `(row r, column c)` falls on a set cell of this
    /// piece's mask, anchored at `(self.x, self.y)`.
    pub open spec fn covers(self, r: int, c: int) -> bool {
        occ(self.tile, r - self.y, c - self.x)
    }

    /// Runtime counterpart of `moved`.
    pub fn shifted(&self, dx: i16, dy: i16) -> (b: Block)
        ensures
            b == moved(*self, dx as int, dy as int),
    {
        let nx: i32 = self.x as i32 + dx as i32;
        let ny: i32 = self.y as i32 + dy as i32;
        Block {
            x: if nx < 0 {
                0
            } else if nx > 0xFFFF {
                0xFFFF
            } else {
                nx as u16
            },
            y: if ny < 0 {
                0
            } else if ny > 0xFFFF {
                0xFFFF
            } else {
                ny as u16
            },
            ..*self
        }
    }
}

} // verus!
