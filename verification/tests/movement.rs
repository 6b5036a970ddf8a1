use blockfall::block::Block;
use blockfall::game::Game;
use blockfall::shapes::Tile;

fn snapshot(g: &Game) -> Vec<Vec<Tile>> {
    let mut rows = Vec::new();
    for y in 0..g.height {
        let mut row = Vec::new();
        for x in 0..g.width {
            row.push(g.cell_at(x, y));
        }
        rows.push(row);
    }
    rows
}

fn line_game() -> Game {
    let mut g = Game::new(16, 18);
    g.set_border_walls();
    g.add_block(Block::new(5, 3, Tile::Line));
    g
}

#[test]
fn clear_then_render_round_trip() {
    let mut g = line_game();
    let before = snapshot(&g);
    g._clear_block();
    for y in 3..7 {
        assert_eq!(g.cell_at(7, y), Tile::Empty);
    }
    g._add_block_to_screen();
    assert_eq!(snapshot(&g), before);
}

#[test]
fn clear_then_render_without_piece() {
    let mut g = Game::new(16, 18);
    g.set_border_walls();
    let before = snapshot(&g);
    g._clear_block();
    g._add_block_to_screen();
    assert_eq!(snapshot(&g), before);
}

#[test]
fn gravity_moves_piece_down_one_row() {
    let mut g = line_game();
    g.update();
    let b = g.current_block.unwrap();
    assert_eq!((b.x, b.y), (5, 4));
    assert!(!b.fixed);
    assert_eq!(g.cell_at(7, 3), Tile::Empty);
    for y in 4..8 {
        assert_eq!(g.cell_at(7, y), Tile::Line);
    }
}

#[test]
fn piece_fixes_at_floor_line() {
    let mut g = Game::new(16, 18);
    g.set_border_walls();
    // height 4 and y = 13 puts the piece exactly at the floor line:
    // y + height == 17 == grid height - 1.
    g.add_block(Block::new(5, 13, Tile::Line));
    g.update();
    let b = g.current_block.unwrap();
    assert!(b.fixed);
    assert_eq!((b.x, b.y), (5, 13));
}

#[test]
fn gravity_until_floor() {
    let mut g = line_game();
    // From y = 3, each tick moves the piece down one row until
    // y + height == 17, i.e. y == 13: ten moving ticks.
    for tick in 1..=10 {
        g.update();
        let b = g.current_block.unwrap();
        assert_eq!(b.y, 3 + tick);
        assert!(!b.fixed);
    }
    // The next tick fixes the piece at y == 13 without moving it.
    g.update();
    let b = g.current_block.unwrap();
    assert!(b.fixed);
    assert_eq!(b.y, 13);
    // Further ticks change nothing.
    g.update();
    let b = g.current_block.unwrap();
    assert!(b.fixed);
    assert_eq!((b.x, b.y), (5, 13));
    for y in 13..17 {
        assert_eq!(g.cell_at(7, y), Tile::Line);
    }
}

#[test]
fn fixed_piece_never_moves() {
    let mut g = Game::new(16, 18);
    g.set_border_walls();
    g.add_block(Block::new(5, 13, Tile::Line));
    g.update();
    assert!(g.current_block.unwrap().fixed);
    let before = snapshot(&g);
    for (dx, dy) in [(1i16, 0i16), (-1, 0), (0, 1)] {
        g.move_block(dx, dy);
        let b = g.current_block.unwrap();
        assert!(b.fixed);
        assert_eq!((b.x, b.y), (5, 13));
        assert_eq!(snapshot(&g), before);
    }
}

#[test]
fn lateral_moves() {
    let mut g = line_game();
    g.move_block(1, 0);
    let b = g.current_block.unwrap();
    assert_eq!((b.x, b.y), (6, 3));
    assert_eq!(g.cell_at(7, 3), Tile::Empty);
    assert_eq!(g.cell_at(8, 3), Tile::Line);
    g.move_block(-1, 0);
    let b = g.current_block.unwrap();
    assert_eq!((b.x, b.y), (5, 3));
    assert_eq!(g.cell_at(7, 3), Tile::Line);
    assert_eq!(g.cell_at(8, 3), Tile::Empty);
}

#[test]
fn left_move_clamps_at_zero() {
    let mut g = Game::new(16, 18);
    g.set_border_walls();
    g.add_block(Block::new(0, 7, Tile::Square));
    g.move_block(-1, 0);
    let b = g.current_block.unwrap();
    assert_eq!(b.x, 0);
    assert_eq!(b.y, 7);
    assert_eq!(g.cell_at(1, 7), Tile::Square);
}

#[test]
fn lateral_attempt_at_floor_line_fixes() {
    // The floor rule judges lateral attempts too: a piece at the floor
    // line is fixed by a sideways move attempt instead of sliding.
    let mut g = Game::new(16, 18);
    g.set_border_walls();
    g.add_block(Block::new(5, 13, Tile::Line));
    g.move_block(1, 0);
    let b = g.current_block.unwrap();
    assert!(b.fixed);
    assert_eq!((b.x, b.y), (5, 13));
}

#[test]
fn move_guard_at_right_wall() {
    let mut g = Game::new(16, 18);
    g.set_border_walls();
    g.add_block(Block::new(12, 3, Tile::Line));
    // One step right keeps the occupied column at 15, in bounds; from
    // there another step would leave the grid.
    assert!(g.move_in_bounds(1, 0));
    g.move_block(1, 0);
    assert_eq!(g.current_block.unwrap().x, 13);
    assert!(!g.move_in_bounds(1, 0));
    assert!(g.move_in_bounds(-1, 0));
    assert!(g.move_in_bounds(0, 1));
}
