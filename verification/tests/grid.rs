use blockfall::block::Block;
use blockfall::clamp;
use blockfall::game::Game;
use blockfall::shapes::{occupied, shape_for, Tile};

fn snapshot(g: &Game) -> Vec<Vec<Tile>> {
    let mut rows = Vec::new();
    for y in 0..g.height {
        let mut row = Vec::new();
        for x in 0..g.width {
            row.push(g.cell_at(x, y));
        }
        rows.push(row);
    }
    rows
}

#[test]
fn new_grid_is_empty() {
    let g = Game::new(16, 18);
    assert_eq!(g.width, 16);
    assert_eq!(g.height, 18);
    assert!(g.current_block.is_none());
    for y in 0..18 {
        for x in 0..16 {
            assert_eq!(g.cell_at(x, y), Tile::Empty);
        }
    }
}

#[test]
fn border_walls_exact() {
    let mut g = Game::new(16, 18);
    g.set_border_walls();
    for y in 0..18 {
        for x in 0..16 {
            let border = x == 0 || x == 15 || y == 17;
            assert_eq!(g.cell_at(x, y) == Tile::Wall, border);
        }
    }
}

#[test]
fn border_walls_smallest_grid() {
    let mut g = Game::new(3, 3);
    g.set_border_walls();
    for y in 0..3 {
        for x in 0..3 {
            let border = x == 0 || x == 2 || y == 2;
            assert_eq!(g.cell_at(x, y) == Tile::Wall, border);
        }
    }
}

#[test]
fn border_walls_idempotent() {
    let mut g = Game::new(16, 18);
    g.set_border_walls();
    let before = snapshot(&g);
    g.set_border_walls();
    assert_eq!(snapshot(&g), before);
}

#[test]
fn spawn_line_piece() {
    let mut g = Game::new(16, 18);
    g.set_border_walls();
    g.add_block(Block::new(5, 3, Tile::Line));
    let b = g.current_block.unwrap();
    assert_eq!(b.height, 4);
    assert!(!b.fixed);
    // The Line mask fills column 2 of all four rows, so the occupied grid
    // cells sit two columns right of the anchor.
    for y in 3..7 {
        assert_eq!(g.cell_at(7, y), Tile::Line);
        assert_eq!(g.cell_at(5, y), Tile::Empty);
    }
    assert_eq!(g.cell_at(7, 2), Tile::Empty);
    assert_eq!(g.cell_at(7, 7), Tile::Empty);
}

#[test]
fn spawn_square_piece() {
    let mut g = Game::new(16, 18);
    g.set_border_walls();
    g.add_block(Block::new(0, 7, Tile::Square));
    let b = g.current_block.unwrap();
    assert_eq!(b.height, 2);
    assert_eq!(g.cell_at(1, 7), Tile::Square);
    assert_eq!(g.cell_at(2, 7), Tile::Square);
    assert_eq!(g.cell_at(1, 8), Tile::Square);
    assert_eq!(g.cell_at(2, 8), Tile::Square);
    assert_eq!(g.cell_at(3, 7), Tile::Empty);
    assert_eq!(g.cell_at(0, 7), Tile::Wall);
}

#[test]
fn catalog_masks() {
    let line = shape_for(Tile::Line);
    let square = shape_for(Tile::Square);
    assert_eq!(line, [[0, 0, 1, 0], [0, 0, 1, 0], [0, 0, 1, 0], [0, 0, 1, 0]]);
    assert_eq!(
        square,
        [[0, 1, 1, 0], [0, 1, 1, 0], [0, 0, 0, 0], [0, 0, 0, 0]]
    );
    let zero = [[0u8; 4]; 4];
    assert_eq!(shape_for(Tile::Empty), zero);
    assert_eq!(shape_for(Tile::Wall), zero);
    for r in 0..4 {
        for c in 0..4 {
            assert_eq!(occupied(Tile::Line, r, c), c == 2);
            assert_eq!(occupied(Tile::Square, r, c), r < 2 && (1..=2).contains(&c));
        }
    }
}

#[test]
fn placeholder_mask_spawns_nothing() {
    let mut g = Game::new(16, 18);
    let before = snapshot(&g);
    g.add_block(Block::new(5, 3, Tile::Empty));
    let b = g.current_block.unwrap();
    assert_eq!(b.height, 0);
    assert_eq!(snapshot(&g), before);
}

#[test]
fn block_fits_guard() {
    let g = Game::new(16, 18);
    // Line occupies column x + 2; column 15 is the last in bounds.
    assert!(g.block_fits(&Block::new(13, 3, Tile::Line)));
    assert!(!g.block_fits(&Block::new(14, 3, Tile::Line)));
    // Line occupies rows y..y + 4; row 17 is the last in bounds.
    assert!(g.block_fits(&Block::new(5, 14, Tile::Line)));
    assert!(!g.block_fits(&Block::new(5, 15, Tile::Line)));
    // A kind without a catalog entry never fits.
    assert!(!g.block_fits(&Block::new(5, 3, Tile::S1)));
}

#[test]
fn block_new_fields() {
    let b = Block::new(5, 3, Tile::Line);
    assert_eq!(b.x, 5);
    assert_eq!(b.y, 3);
    assert_eq!(b.height, 0);
    assert!(!b.fixed);
    assert_eq!(b.tile, Tile::Line);
}

#[test]
fn clamp_cases() {
    assert_eq!(clamp(2, 1, 5), 2);
    assert_eq!(clamp(2, 7, 5), 5);
    assert_eq!(clamp(2, 3, 5), 3);
    assert_eq!(clamp(2, 2, 5), 2);
    assert_eq!(clamp(2, 5, 5), 5);
}
