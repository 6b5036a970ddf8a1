//! The shape catalog: which cells of a piece's 4x4 mask are occupied, and
//! the derived occupied-row count used as the piece's vertical extent.
use vstd::prelude::*;

verus! {

/// A cell of the playfield: empty, boundary wall, or a piece of a given
/// kind. Settled pieces of the same kind are indistinguishable.
#[derive(Clone, Copy, PartialEq, Eq, Structural, Debug)]
pub enum Tile {
    Empty,
    Wall,
    Line,
    Square,
    S1,
    S2,
    L1,
    L2,
}

/// Which kinds have an entry in the shape catalog. `Empty` and `Wall` hold
/// placeholder all-zero masks; the remaining kinds are reserved and have no
/// mask yet.
pub open spec fn has_shape(kind: Tile) -> bool {
    match kind {
        Tile::Empty | Tile::Wall | Tile::Line | Tile::Square => true,
        _ => false,
    }
}

/// The catalog's 4x4 occupancy masks: true when mask cell `(row, col)` of
/// `kind`'s shape is set. A `Line` fills column 2 of every row; a `Square`
/// fills the 2x2 block at rows 0..2, columns 1..3.
pub open spec fn occ(kind: Tile, row: int, col: int) -> bool {
    0 <= row < 4 && 0 <= col < 4 && match kind {
        Tile::Line => col == 2,
        Tile::Square => row < 2 && 1 <= col <= 2,
        _ => false,
    }
}

/// Runtime test of `has_shape`.
pub fn in_catalog(kind: Tile) -> (r: bool)
    ensures
        r == has_shape(kind),
{
    match kind {
        Tile::Empty | Tile::Wall | Tile::Line | Tile::Square => true,
        _ => false,
    }
}

/// Runtime lookup of one mask cell, the explicit tagged mapping that stands
/// in for indexing a catalog array by the kind.
pub fn occupied(kind: Tile, row: usize, col: usize) -> (r: bool)
    requires
        has_shape(kind),
        row < 4,
        col < 4,
    ensures
        r == occ(kind, row as int, col as int),
{
    match kind {
        Tile::Line => col == 2,
        Tile::Square => row < 2 && 1 <= col && col <= 2,
        _ => false,
    }
}

/// Catalog lookup of the whole 4x4 mask, row-major, one byte per cell, 1
/// where the cell is set.
pub fn shape_for(kind: Tile) -> (mask: [[u8; 4]; 4])
    requires
        has_shape(kind),
    ensures
        forall|r: int, c: int|
            0 <= r < 4 && 0 <= c < 4 ==> ((#[trigger] mask@[r]@[c]) == 1 <==> occ(kind, r, c)),
        forall|r: int, c: int|
            0 <= r < 4 && 0 <= c < 4 ==> (#[trigger] mask@[r]@[c]) == 0 || mask@[r]@[c] == 1,
{
    match kind {
        Tile::Line => [[0, 0, 1, 0], [0, 0, 1, 0], [0, 0, 1, 0], [0, 0, 1, 0]],
        Tile::Square => [[0, 1, 1, 0], [0, 1, 1, 0], [0, 0, 0, 0], [0, 0, 0, 0]],
        _ => [[0, 0, 0, 0], [0, 0, 0, 0], [0, 0, 0, 0], [0, 0, 0, 0]],
    }
}

/// Whether any cell in mask row `row` of `kind`'s shape is set.
pub open spec fn row_occupied(kind: Tile, row: int) -> bool {
    exists|c: int| occ(kind, row, c)
}

/// How many of the first `upto` mask rows contain a set cell.
pub open spec fn occupied_rows_below(kind: Tile, upto: int) -> int
    decreases upto,
{
    if upto <= 0 {
        0
    } else {
        occupied_rows_below(kind, upto - 1) + if row_occupied(kind, upto - 1) {
            1int
        } else {
            0int
        }
    }
}

/// The piece's vertical extent: the number of its 4 mask rows that hold a
/// set cell, counted from the top.
pub open spec fn piece_height(kind: Tile) -> int {
    occupied_rows_below(kind, 4)
}

/// The concrete heights of the catalog entries: a `Line` piece spans four
/// mask rows, a `Square` two, and the placeholder masks none.
pub proof fn lemma_piece_heights()
    ensures
        piece_height(Tile::Line) == 4,
        piece_height(Tile::Square) == 2,
        piece_height(Tile::Empty) == 0,
        piece_height(Tile::Wall) == 0,
{
    reveal_with_fuel(occupied_rows_below, 5);
    assert(occ(Tile::Line, 0, 2));
    assert(occ(Tile::Line, 1, 2));
    assert(occ(Tile::Line, 2, 2));
    assert(occ(Tile::Line, 3, 2));
    assert(occ(Tile::Square, 0, 1));
    assert(occ(Tile::Square, 1, 1));
}

} // verus!
