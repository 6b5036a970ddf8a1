//! The playfield and the simulation engine: wall setup, piece spawning,
//! the clear / move / re-stamp cycle, and the floor rule that fixes a
//! landed piece.
use vstd::prelude::*;

use crate::block::Block;
use crate::block::moved;
use crate::shapes::Tile;
use crate::shapes::has_shape;
use crate::shapes::in_catalog;
use crate::shapes::occ;
use crate::shapes::occupied;
use crate::shapes::occupied_rows_below;
use crate::shapes::piece_height;
use crate::shapes::row_occupied;

verus! {

/// Cell-for-cell equality of two playfields of the same dimensions.
pub open spec fn unchanged_cells(pre: Game, post: Game) -> bool {
    forall|r: int, c: int|
        0 <= r < pre.height && 0 <= c < pre.width ==> #[trigger] post.cell(r, c) == pre.cell(r, c)
}

/// `post` is `pre` with every border cell set to `Wall` and every other
/// cell untouched.
pub open spec fn walled_to(pre: Game, post: Game) -> bool {
    forall|r: int, c: int|
        0 <= r < pre.height && 0 <= c < pre.width ==> #[trigger] post.cell(r, c) == (if pre
            .is_border(r, c) {
            Tile::Wall
        } else {
            pre.cell(r, c)
        })
}

/// `post` is `pre` with `b`'s mask cells re-stamped as `b.tile` and every
/// other cell untouched.
pub open spec fn stamped_to(pre: Game, post: Game, b: Block) -> bool {
    forall|r: int, c: int|
        0 <= r < pre.height && 0 <= c < pre.width ==> #[trigger] post.cell(r, c) == (if b.covers(
            r,
            c,
        ) {
            b.tile
        } else {
            pre.cell(r, c)
        })
}

/// `post` is `pre` with `b`'s mask cells reset to `Empty` and every other
/// cell untouched.
pub open spec fn erased_to(pre: Game, post: Game, b: Block) -> bool {
    forall|r: int, c: int|
        0 <= r < pre.height && 0 <= c < pre.width ==> #[trigger] post.cell(r, c) == (if b.covers(
            r,
            c,
        ) {
            Tile::Empty
        } else {
            pre.cell(r, c)
        })
}

/// The playfield: `height` rows of `width` tiles, row 0 at the top, plus
/// the single active piece, if one has been spawned.
pub struct Game {
    pub width: u16,
    pub height: u16,
    pub screen: Vec<Vec<Tile>>,
    pub current_block: Option<Block>,
}

impl Game {
    /// The tile at row `r`, column `c`.
    pub open spec fn cell(self, r: int, c: int) -> Tile {
        self.screen@[r]@[c]
    }

    /// The screen holds `height` rows of `width` tiles each.
    pub open spec fn grid_wf(self) -> bool {
        &&& 1 <= self.width
        &&& 1 <= self.height
        &&& self.screen@.len() == self.height as int
        &&& forall|r: int|
            0 <= r < self.height as int ==> (#[trigger] self.screen@[r])@.len()
                == self.width as int
    }

    /// All set mask cells of `b` fall inside the grid when anchored at
    /// `(b.x, b.y)`.
    pub open spec fn block_in_bounds(self, b: Block) -> bool {
        forall|mr: int, mc: int|
            #[trigger] occ(b.tile, mr, mc) ==> b.y + mr < self.height && b.x + mc < self.width
    }

    /// The active piece, if any, has a catalog entry and sits inside the
    /// grid.
    pub open spec fn piece_wf(self) -> bool {
        match self.current_block {
            Option::Some(b) => has_shape(b.tile) && self.block_in_bounds(b),
            Option::None => true,
        }
    }

    pub open spec fn wf(self) -> bool {
        self.grid_wf() && self.piece_wf()
    }

    /// The active piece's occupied cells all read its own tile in the
    /// grid; the engine restores this after every full movement step.
    pub open spec fn rendered(self) -> bool {
        match self.current_block {
            Option::Some(b) => forall|r: int, c: int|
                0 <= r < self.height && 0 <= c < self.width && b.covers(r, c)
                    ==> #[trigger] self.cell(r, c) == b.tile,
            Option::None => true,
        }
    }

    /// Whether `(r, c)` lies on the arena boundary: the leftmost or
    /// rightmost column, or the bottom row.
    pub open spec fn is_border(self, r: int, c: int) -> bool {
        c == 0 || c == self.width - 1 || r == self.height - 1
    }

    /// Every cell of the grid is `Empty`.
    pub open spec fn all_empty(self) -> bool {
        forall|r: int, c: int|
            0 <= r < self.height && 0 <= c < self.width ==> #[trigger] self.cell(r, c)
                == Tile::Empty
    }

    /// Allocate a `width` x `height` playfield of empty cells with no
    /// active piece.
    pub fn new(width: u16, height: u16) -> (g: Game)
        requires
            1 <= width,
            1 <= height,
        ensures
            g.wf(),
            g.width == width,
            g.height == height,
            g.current_block is None,
            g.all_empty(),
    {
        let mut screen: Vec<Vec<Tile>> = Vec::new();
        let mut l: u16 = 0;
        while l < height
            invariant
                l <= height,
                screen@.len() == l as int,
                forall|r: int|
                    0 <= r < l as int ==> (#[trigger] screen@[r])@.len() == width as int,
                forall|r: int, c: int|
                    #![trigger screen@[r]@[c]]
                    0 <= r < l as int && 0 <= c < width as int ==> screen@[r]@[c] == Tile::Empty,
            decreases height - l,
        {
            let mut row: Vec<Tile> = Vec::new();
            let mut c: u16 = 0;
            while c < width
                invariant
                    c <= width,
                    row@.len() == c as int,
                    forall|i: int| 0 <= i < c as int ==> row@[i] == Tile::Empty,
                decreases width - c,
            {
                row.push(Tile::Empty);
                c = c + 1;
            }
            screen.push(row);
            l = l + 1;
        }
        Game { width, height, screen, current_block: Option::None }
    }

    /// The tile at column `x`, row `y`.
    pub fn cell_at(&self, x: u16, y: u16) -> (t: Tile)
        requires
            self.grid_wf(),
            x < self.width,
            y < self.height,
        ensures
            t == self.cell(y as int, x as int),
    {
        self.screen[y as usize][x as usize]
    }

    /// Direct indexed write to one cell; callers guarantee bounds.
    pub fn set_cell(&mut self, x: u16, y: u16, tile: Tile)
        requires
            old(self).grid_wf(),
            x < old(self).width,
            y < old(self).height,
        ensures
            final(self).grid_wf(),
            final(self).width == old(self).width,
            final(self).height == old(self).height,
            final(self).current_block == old(self).current_block,
            forall|r: int, c: int|
                0 <= r < old(self).height && 0 <= c < old(self).width
                    ==> #[trigger] final(self).cell(r, c) == (if r == y as int && c == x as int {
                    tile
                } else {
                    old(self).cell(r, c)
                }),
    {
        self.screen[y as usize].set(x as usize, tile);
    }

    /// Wall off the arena: the leftmost and rightmost column of every row,
    /// and the whole bottom row. Idempotent; intended to run once, right
    /// after construction.
    pub fn set_border_walls(&mut self)
        requires
            old(self).grid_wf(),
        ensures
            final(self).grid_wf(),
            final(self).width == old(self).width,
            final(self).height == old(self).height,
            final(self).current_block == old(self).current_block,
            walled_to(*old(self), *final(self)),
    {
        let mut l: u16 = 0;
        while l < self.height
            invariant
                old(self).grid_wf(),
                self.grid_wf(),
                self.width == old(self).width,
                self.height == old(self).height,
                self.current_block == old(self).current_block,
                l <= self.height,
                forall|r: int, c: int|
                    0 <= r < self.height && 0 <= c < self.width ==> #[trigger] self.cell(r, c)
                        == (if (c == 0 || c == self.width - 1) && r < l as int {
                        Tile::Wall
                    } else {
                        old(self).cell(r, c)
                    }),
            decreases self.height - l,
        {
            let w = self.width;
            self.set_cell(0, l, Tile::Wall);
            self.set_cell(w - 1, l, Tile::Wall);
            l = l + 1;
        }
        let mut c: u16 = 0;
        let h = self.height;
        while c < self.width
            invariant
                old(self).grid_wf(),
                self.grid_wf(),
                self.width == old(self).width,
                self.height == old(self).height,
                self.current_block == old(self).current_block,
                h == self.height,
                c <= self.width,
                forall|r: int, cc: int|
                    0 <= r < self.height && 0 <= cc < self.width ==> #[trigger] self.cell(r, cc)
                        == (if (cc == 0 || cc == self.width - 1) || (r == self.height - 1 && cc
                        < c as int) {
                        Tile::Wall
                    } else {
                        old(self).cell(r, cc)
                    }),
            decreases self.width - c,
        {
            self.set_cell(c, h - 1, Tile::Wall);
            c = c + 1;
        }
    }

    /// Write `t` into every grid cell covered by `b`'s mask, leaving all
    /// other cells untouched.
    fn paint_block(&mut self, b: Block, t: Tile)
        requires
            old(self).grid_wf(),
            has_shape(b.tile),
            old(self).block_in_bounds(b),
        ensures
            final(self).grid_wf(),
            final(self).width == old(self).width,
            final(self).height == old(self).height,
            final(self).current_block == old(self).current_block,
            forall|r: int, c: int|
                0 <= r < old(self).height && 0 <= c < old(self).width
                    ==> #[trigger] final(self).cell(r, c) == (if b.covers(r, c) {
                    t
                } else {
                    old(self).cell(r, c)
                }),
    {
        let mut i: usize = 0;
        while i < 4
            invariant
                old(self).grid_wf(),
                self.grid_wf(),
                self.width == old(self).width,
                self.height == old(self).height,
                self.current_block == old(self).current_block,
                has_shape(b.tile),
                old(self).block_in_bounds(b),
                i <= 4,
                forall|r: int, c: int|
                    0 <= r < self.height && 0 <= c < self.width && !b.covers(r, c)
                        ==> #[trigger] self.cell(r, c) == old(self).cell(r, c),
                forall|mr: int, mc: int|
                    #[trigger] occ(b.tile, mr, mc) && mr < i as int ==> self.cell(
                        b.y + mr,
                        b.x + mc,
                    ) == t,
            decreases 4 - i,
        {
            let mut j: usize = 0;
            while j < 4
                invariant
                    old(self).grid_wf(),
                    self.grid_wf(),
                    self.width == old(self).width,
                    self.height == old(self).height,
                    self.current_block == old(self).current_block,
                    has_shape(b.tile),
                    old(self).block_in_bounds(b),
                    i < 4,
                    j <= 4,
                    forall|r: int, c: int|
                        0 <= r < self.height && 0 <= c < self.width && !b.covers(r, c)
                            ==> #[trigger] self.cell(r, c) == old(self).cell(r, c),
                    forall|mr: int, mc: int|
                        #[trigger] occ(b.tile, mr, mc) && (mr < i as int || (mr == i as int && mc
                            < j as int)) ==> self.cell(b.y + mr, b.x + mc) == t,
                decreases 4 - j,
            {
                if occupied(b.tile, i, j) {
                    let xx: u16 = b.x + (j as u16);
                    let yy: u16 = b.y + (i as u16);
                    self.set_cell(xx, yy, t);
                }
                j = j + 1;
            }
            i = i + 1;
        }
        assert forall|r: int, c: int|
            0 <= r < old(self).height && 0 <= c < old(self).width && b.covers(r, c)
                implies #[trigger] self.cell(r, c) == t by {
            let mr = r - b.y;
            let mc = c - b.x;
            assert(occ(b.tile, mr, mc));
            assert(self.cell(b.y + mr, b.x + mc) == t);
        }
    }

    /// Spawn `block` as the active piece: scan its mask from row 0 down,
    /// counting the rows that hold a set cell, record that count as the
    /// piece's height, and stamp the mask onto the grid.
    pub fn add_block(&mut self, block: Block)
        requires
            old(self).grid_wf(),
            has_shape(block.tile),
            old(self).block_in_bounds(block),
        ensures
            final(self).wf(),
            final(self).width == old(self).width,
            final(self).height == old(self).height,
            final(self).current_block == Option::Some(
                Block { height: piece_height(block.tile) as u16, ..block },
            ),
            final(self).rendered(),
            stamped_to(
                *old(self),
                *final(self),
                Block { height: piece_height(block.tile) as u16, ..block },
            ),
    {
        let mut height: u16 = 0;
        let mut i: usize = 0;
        while i < 4
            invariant
                has_shape(block.tile),
                i <= 4,
                height as int == occupied_rows_below(block.tile, i as int),
                height as int <= i as int,
            decreases 4 - i,
        {
            let mut j: usize = 0;
            let mut found: bool = false;
            while j < 4
                invariant_except_break
                    has_shape(block.tile),
                    i < 4,
                    j <= 4,
                    !found,
                    forall|cc: int|
                        0 <= cc < j as int ==> !occ(block.tile, i as int, cc),
                ensures
                    found == row_occupied(block.tile, i as int),
                decreases 4 - j,
            {
                if occupied(block.tile, i, j) {
                    found = true;
                    break ;
                }
                j = j + 1;
            }
            if found {
                height = height + 1;
            }
            i = i + 1;
        }
        let placed = Block { height, ..block };
        self.current_block = Option::Some(placed);
        self._add_block_to_screen();
    }

    /// The floor rule: `b` may keep falling only while it is not already
    /// fixed and its bottom-most occupied mask row stays strictly above the
    /// second-to-last grid row.
    pub open spec fn can_fall(self, b: Block) -> bool {
        !b.fixed && b.y + b.height < self.height - 1
    }

    /// Whether a movement attempt would displace the active piece rather
    /// than fix it: there is a piece and the floor rule lets it continue.
    pub open spec fn move_applies(self) -> bool {
        match self.current_block {
            Option::Some(b) => self.can_fall(b),
            Option::None => false,
        }
    }

    /// What one movement attempt by `(dx, dy)` makes of `b`: the displaced
    /// piece while the floor rule holds, otherwise `b` fixed in place.
    pub open spec fn step_block(self, b: Block, dx: int, dy: int) -> Block {
        if self.can_fall(b) {
            moved(b, dx, dy)
        } else {
            Block { fixed: true, ..b }
        }
    }

    /// Runtime test of the floor rule, the single seam where a fuller
    /// per-cell collision test could later be added. The deltas take no
    /// part in it yet: lateral attempts are judged by the same rule.
    pub fn can_occupy(&self, b: &Block, dx: i16, dy: i16) -> (r: bool)
        requires
            self.grid_wf(),
        ensures
            r == self.can_fall(*b),
    {
        let bottom: usize = b.y as usize + b.height as usize;
        !b.fixed && bottom < self.screen.len() - 1
    }

    /// One movement attempt: while the floor rule holds the piece is
    /// displaced by `(dx, dy)` (clamped at the coordinate range); once it
    /// fails the piece is fixed in place, permanently.
    pub fn _move_block(&mut self, x: i16, y: i16)
        requires
            old(self).grid_wf(),
            old(self).piece_wf(),
            old(self).move_applies() ==> (match old(self).current_block {
                Option::Some(b) => old(self).block_in_bounds(moved(b, x as int, y as int)),
                Option::None => true,
            }),
        ensures
            final(self).grid_wf(),
            final(self).piece_wf(),
            final(self).width == old(self).width,
            final(self).height == old(self).height,
            final(self).screen == old(self).screen,
            match old(self).current_block {
                Option::Some(b) => final(self).current_block == Option::Some(
                    old(self).step_block(b, x as int, y as int),
                ),
                Option::None => final(self).current_block is None,
            },
    {
        match self.current_block {
            Option::Some(block) => {
                if self.can_occupy(&block, x, y) {
                    self.current_block = Option::Some(block.shifted(x, y));
                } else {
                    self.current_block = Option::Some(Block { fixed: true, ..block });
                }
            },
            Option::None => {},
        }
    }

    /// Re-stamp the active piece's mask cells into the grid as its tile
    /// kind; without an active piece the grid is left as it is.
    pub fn _add_block_to_screen(&mut self)
        requires
            old(self).wf(),
        ensures
            final(self).wf(),
            final(self).width == old(self).width,
            final(self).height == old(self).height,
            final(self).current_block == old(self).current_block,
            final(self).rendered(),
            match old(self).current_block {
                Option::Some(b) => stamped_to(*old(self), *final(self), b),
                Option::None => unchanged_cells(*old(self), *final(self)),
            },
    {
        match self.current_block {
            Option::Some(block) => {
                self.paint_block(block, block.tile);
            },
            Option::None => {},
        }
    }

    /// Reset the active piece's mask cells to `Empty`, so a recomputed
    /// position can be stamped without stale cells lingering; without an
    /// active piece the grid is left as it is.
    pub fn _clear_block(&mut self)
        requires
            old(self).wf(),
        ensures
            final(self).wf(),
            final(self).width == old(self).width,
            final(self).height == old(self).height,
            final(self).current_block == old(self).current_block,
            match old(self).current_block {
                Option::Some(b) => erased_to(*old(self), *final(self), b),
                Option::None => unchanged_cells(*old(self), *final(self)),
            },
    {
        match self.current_block {
            Option::Some(block) => {
                self.paint_block(block, Tile::Empty);
            },
            Option::None => {},
        }
    }

    /// One full movement step, atomic to any observer: erase the piece,
    /// apply the movement attempt, and stamp the piece back at its
    /// (possibly unchanged) position.
    pub fn move_block(&mut self, x: i16, y: i16)
        requires
            old(self).wf(),
            old(self).move_applies() ==> (match old(self).current_block {
                Option::Some(b) => old(self).block_in_bounds(moved(b, x as int, y as int)),
                Option::None => true,
            }),
        ensures
            final(self).wf(),
            final(self).width == old(self).width,
            final(self).height == old(self).height,
            final(self).rendered(),
            match old(self).current_block {
                Option::Some(b) => {
                    &&& final(self).current_block == Option::Some(
                        old(self).step_block(b, x as int, y as int),
                    )
                    &&& forall|r: int, c: int|
                        0 <= r < old(self).height && 0 <= c < old(self).width
                            ==> #[trigger] final(self).cell(r, c) == (if old(self).step_block(
                            b,
                            x as int,
                            y as int,
                        ).covers(r, c) {
                            b.tile
                        } else if b.covers(r, c) {
                            Tile::Empty
                        } else {
                            old(self).cell(r, c)
                        })
                },
                Option::None => final(self).current_block is None && unchanged_cells(
                    *old(self),
                    *final(self),
                ),
            },
    {
        let ghost g0 = *self;
        self._clear_block();
        let ghost g1 = *self;
        self._move_block(x, y);
        let ghost g2 = *self;
        self._add_block_to_screen();
        proof {
            match g0.current_block {
                Option::Some(b) => {
                    let nb = g0.step_block(b, x as int, y as int);
                    assert forall|r: int, c: int|
                        0 <= r < g0.height && 0 <= c < g0.width implies #[trigger] self.cell(r, c)
                        == (if nb.covers(r, c) {
                        b.tile
                    } else if b.covers(r, c) {
                        Tile::Empty
                    } else {
                        g0.cell(r, c)
                    }) by {
                        assert(g2.cell(r, c) == g1.cell(r, c));
                        assert(g1.cell(r, c) == (if b.covers(r, c) {
                            Tile::Empty
                        } else {
                            g0.cell(r, c)
                        }));
                        assert(self.cell(r, c) == (if nb.covers(r, c) {
                            nb.tile
                        } else {
                            g2.cell(r, c)
                        }));
                    }
                },
                Option::None => {},
            }
        }
    }

    /// One gravity tick: a movement attempt straight down by one row.
    pub fn update(&mut self)
        requires
            old(self).wf(),
            old(self).move_applies() ==> (match old(self).current_block {
                Option::Some(b) => old(self).block_in_bounds(moved(b, 0, 1)),
                Option::None => true,
            }),
        ensures
            final(self).wf(),
            final(self).width == old(self).width,
            final(self).height == old(self).height,
            final(self).rendered(),
            match old(self).current_block {
                Option::Some(b) => {
                    &&& final(self).current_block == Option::Some(old(self).step_block(b, 0, 1))
                    &&& forall|r: int, c: int|
                        0 <= r < old(self).height && 0 <= c < old(self).width
                            ==> #[trigger] final(self).cell(r, c) == (if old(self).step_block(
                            b,
                            0,
                            1,
                        ).covers(r, c) {
                            b.tile
                        } else if b.covers(r, c) {
                            Tile::Empty
                        } else {
                            old(self).cell(r, c)
                        })
                },
                Option::None => final(self).current_block is None && unchanged_cells(
                    *old(self),
                    *final(self),
                ),
            },
    {
        self.move_block(0, 1);
    }

    /// Runtime guard for `add_block`: whether `b`'s kind has a catalog
    /// entry and every set mask cell lands inside the grid.
    pub fn block_fits(&self, b: &Block) -> (r: bool)
        requires
            self.grid_wf(),
        ensures
            r == (has_shape(b.tile) && self.block_in_bounds(*b)),
    {
        if !in_catalog(b.tile) {
            return false;
        }
        let mut i: usize = 0;
        while i < 4
            invariant
                has_shape(b.tile),
                i <= 4,
                forall|mr: int, mc: int|
                    #[trigger] occ(b.tile, mr, mc) && mr < i as int ==> b.y + mr < self.height
                        && b.x + mc < self.width,
            decreases 4 - i,
        {
            let mut j: usize = 0;
            while j < 4
                invariant
                    has_shape(b.tile),
                    i < 4,
                    j <= 4,
                    forall|mr: int, mc: int|
                        #[trigger] occ(b.tile, mr, mc) && (mr < i as int || (mr == i as int && mc
                            < j as int)) ==> b.y + mr < self.height && b.x + mc < self.width,
                decreases 4 - j,
            {
                if occupied(b.tile, i, j) {
                    let in_y: bool = b.y as usize + i < self.height as usize;
                    let in_x: bool = b.x as usize + j < self.width as usize;
                    if !(in_y && in_x) {
                        assert(occ(b.tile, i as int, j as int));
                        assert(!self.block_in_bounds(*b));
                        return false;
                    }
                }
                j = j + 1;
            }
            i = i + 1;
        }
        true
    }

    /// Runtime guard for `move_block` and `update`: whether the attempt,
    /// if the floor rule lets it displace the piece, keeps every set mask
    /// cell inside the grid.
    pub fn move_in_bounds(&self, dx: i16, dy: i16) -> (r: bool)
        requires
            self.grid_wf(),
            self.piece_wf(),
        ensures
            r == (self.move_applies() ==> (match self.current_block {
                Option::Some(b) => self.block_in_bounds(moved(b, dx as int, dy as int)),
                Option::None => true,
            })),
    {
        match self.current_block {
            Option::None => true,
            Option::Some(b) => {
                if !self.can_occupy(&b, dx, dy) {
                    true
                } else {
                    let nb = b.shifted(dx, dy);
                    self.block_fits(&nb)
                }
            },
        }
    }
}

/// On any grid of three or more rows and columns, walling a freshly
/// allocated playfield makes a cell a wall exactly when it lies in column
/// 0, in column `width - 1`, or in row `height - 1`.
pub proof fn lemma_border_walls_exact(g0: Game, g1: Game)
    requires
        g0.grid_wf(),
        3 <= g0.width,
        3 <= g0.height,
        g0.all_empty(),
        g1.width == g0.width,
        g1.height == g0.height,
        walled_to(g0, g1),
    ensures
        forall|r: int, c: int|
            0 <= r < g1.height && 0 <= c < g1.width ==> (#[trigger] g1.cell(r, c) == Tile::Wall
                <==> g1.is_border(r, c)),
{
    assert forall|r: int, c: int|
        0 <= r < g1.height && 0 <= c < g1.width implies (#[trigger] g1.cell(r, c) == Tile::Wall
        <==> g1.is_border(r, c)) by {
        assert(g1.cell(r, c) == (if g0.is_border(r, c) {
            Tile::Wall
        } else {
            g0.cell(r, c)
        }));
        if !g0.is_border(r, c) {
            assert(g0.cell(r, c) == Tile::Empty);
        }
    }
}

/// Walling the arena is idempotent: a second pass changes no cell, since
/// every border cell is already a wall and no other cell is touched.
pub proof fn lemma_border_walls_idempotent(g0: Game, g1: Game, g2: Game)
    requires
        g1.width == g0.width,
        g1.height == g0.height,
        g2.width == g1.width,
        g2.height == g1.height,
        walled_to(g0, g1),
        walled_to(g1, g2),
    ensures
        unchanged_cells(g1, g2),
{
    assert forall|r: int, c: int|
        0 <= r < g1.height && 0 <= c < g1.width implies #[trigger] g2.cell(r, c) == g1.cell(
        r,
        c,
    ) by {
        assert(g1.cell(r, c) == (if g0.is_border(r, c) {
            Tile::Wall
        } else {
            g0.cell(r, c)
        }));
        assert(g2.cell(r, c) == (if g1.is_border(r, c) {
            Tile::Wall
        } else {
            g1.cell(r, c)
        }));
    }
}

/// Erasing the active piece and immediately re-stamping it, with no move
/// between, restores every grid cell: the pair of calls in a movement
/// step is a round trip, given that the piece was rendered in the grid,
/// as it is between full movement steps.
pub proof fn lemma_clear_then_render_restores(g0: Game, g1: Game, g2: Game, b: Block)
    requires
        g0.current_block == Option::Some(b),
        g0.rendered(),
        g1.width == g0.width,
        g1.height == g0.height,
        erased_to(g0, g1, b),
        stamped_to(g1, g2, b),
    ensures
        forall|r: int, c: int|
            0 <= r < g0.height && 0 <= c < g0.width ==> #[trigger] g2.cell(r, c) == g0.cell(r, c),
{
    assert forall|r: int, c: int|
        0 <= r < g0.height && 0 <= c < g0.width implies #[trigger] g2.cell(r, c) == g0.cell(
        r,
        c,
    ) by {
        assert(g1.cell(r, c) == (if b.covers(r, c) {
            Tile::Empty
        } else {
            g0.cell(r, c)
        }));
        assert(g2.cell(r, c) == (if b.covers(r, c) {
            b.tile
        } else {
            g1.cell(r, c)
        }));
        if b.covers(r, c) {
            assert(g0.cell(r, c) == b.tile);
        }
    }
}

/// The floor rule on a downward attempt: a piece whose bottom line sits
/// strictly above the floor line descends exactly one row and keeps
/// falling, while a piece whose bottom line has reached the floor line
/// becomes fixed and its position does not change.
pub proof fn lemma_floor_rule(g: Game, b: Block)
    requires
        !b.fixed,
    ensures
        b.y + b.height < g.height - 1 ==> g.step_block(b, 0, 1) == (Block {
            y: (b.y + 1) as u16,
            ..b
        }),
        b.y + b.height < g.height - 1 ==> !g.step_block(b, 0, 1).fixed,
        b.y + b.height >= g.height - 1 ==> g.step_block(b, 0, 1) == (Block { fixed: true, ..b })
            && g.step_block(b, 0, 1).x == b.x && g.step_block(b, 0, 1).y == b.y,
{
}

/// A fixed piece is terminal: a movement attempt in any direction reports
/// it landed again and leaves its position unchanged.
pub proof fn lemma_fixed_is_terminal(g: Game, b: Block, dx: int, dy: int)
    requires
        b.fixed,
    ensures
        g.step_block(b, dx, dy) == b,
        g.step_block(b, dx, dy).fixed,
        g.step_block(b, dx, dy).x == b.x,
        g.step_block(b, dx, dy).y == b.y,
{
}

} // verus!
