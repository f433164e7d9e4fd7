//! Level construction, full reset and player reset behavior.

use platformer::entity::{GridPos, Screen};
use platformer::game::GameState;
use platformer::geom::Rect;

fn new_game() -> GameState {
    GameState::new(400_000)
}

#[test]
fn fresh_game_geometry() {
    let g = new_game();
    assert!(matches!(g.screen, Screen::Menu));
    // offset aligns the 7-row map bottom with the viewport bottom
    assert_eq!(g.offset_y, 400_000 - 7 * 32_000);
    // 2+2+2 platform tiles, 28 bottom-row tiles, 1 pipe cap, 2 special tiles
    assert_eq!(g.tiles.len(), 37);
    // first parsed tile is row 3, column 11
    assert_eq!(g.tiles[0], Rect { x: 11 * 32_000, y: 176_000 + 3 * 32_000, w: 32_000, h: 32_000 });
    // the pipe cap follows the anchor tile of the bottom row
    let cap = g
        .tiles
        .iter()
        .find(|t| t.h == 8_000)
        .expect("pipe cap tile");
    assert_eq!(*cap, Rect { x: 736_000, y: 320_000, w: 32_000, h: 8_000 });
    assert_eq!(
        g.specials,
        vec![GridPos { col: 8, row: 2 }, GridPos { col: 15, row: 2 }]
    );
    assert_eq!(g.pipe, Some(Rect { x: 736_000, y: 320_000, w: 32_000, h: 48_000 }));
    assert!(g.coins.is_empty());
    assert!(g.consumed.is_empty());
    assert_eq!(g.score, 0);
    assert_eq!(g.spawn_timer, 0);
    assert_eq!(g.spawn_interval, 5_000);
    assert!(!g.entering_pipe);
}

#[test]
fn fresh_game_monster_centered_on_ground() {
    let g = new_game();
    assert_eq!(g.monsters.len(), 1);
    let m = &g.monsters[0];
    // centered over the middle ground tile (column 14), patrol three tiles
    // each way
    assert_eq!(m.x, 452_000);
    assert_eq!(m.y, 344_000);
    assert_eq!(m.w, 24_000);
    assert_eq!(m.h, 24_000);
    assert_eq!(m.vx, 60_000);
    assert_eq!(m.range_min, 368_000);
    assert_eq!(m.range_max, 560_000);
}

#[test]
fn building_twice_gives_the_same_level() {
    let a = new_game();
    let b = new_game();
    assert_eq!(a.tiles, b.tiles);
    assert_eq!(a.specials, b.specials);
    assert_eq!(a.pipe, b.pipe);
    assert_eq!(a.monsters, b.monsters);
    assert_eq!(a.player, b.player);
}

#[test]
fn full_reset_restores_everything() {
    let mut g = new_game();
    let fresh = new_game();
    // scramble a running game
    g.screen = Screen::Playing;
    g.player.x = 700_000;
    g.player.y = 10_000;
    g.player.vx = 200_000;
    g.player.vy = 50_000;
    g.player.on_ground = true;
    g.score = 30;
    g.consumed.push(GridPos { col: 14, row: 6 });
    g.consumed.push(GridPos { col: 8, row: 2 });
    g.consumed.push(GridPos { col: 15, row: 2 });
    g.specials.clear();
    g.monsters[0].x = 500_000;
    g.monsters[0].vx = -60_000;
    g.spawn_timer = 4_000;
    g.entering_pipe = true;
    g.enter_timer = 900;

    g.reset_game();

    // player at spawn, zero velocity, airborne
    assert_eq!(g.player, fresh.player);
    assert_eq!(g.player.vx, 0);
    assert_eq!(g.player.vy, 0);
    assert!(!g.player.on_ground);
    // run state cleared
    assert_eq!(g.score, 0);
    assert!(g.coins.is_empty());
    assert!(g.consumed.is_empty());
    assert_eq!(g.spawn_timer, 0);
    assert!(!g.entering_pipe);
    assert_eq!(g.enter_timer, 0);
    // geometry regenerated deterministically from the fixed map
    assert_eq!(g.tiles, fresh.tiles);
    assert_eq!(g.specials, fresh.specials);
    assert_eq!(g.pipe, fresh.pipe);
    assert_eq!(g.monsters, fresh.monsters);
    // the screen transition belongs to the caller
    assert!(matches!(g.screen, Screen::Playing));
}

#[test]
fn full_reset_is_idempotent() {
    let mut a = new_game();
    a.reset_game();
    let mut b = new_game();
    b.reset_game();
    b.reset_game();
    assert_eq!(a.tiles, b.tiles);
    assert_eq!(a.specials, b.specials);
    assert_eq!(a.pipe, b.pipe);
    assert_eq!(a.monsters, b.monsters);
    assert_eq!(a.player, b.player);
    assert_eq!(a.score, b.score);
}

#[test]
fn player_reset_keeps_level_and_score() {
    let mut g = new_game();
    g.score = 20;
    g.consumed.push(GridPos { col: 14, row: 6 });
    g.player.x = 600_000;
    g.player.vy = 99_000;
    g.monsters[0].x = 520_000;
    g.monsters[0].vx = -60_000;

    g.reset_player();

    assert_eq!(g.player.x, 50_000);
    assert_eq!(g.player.y, 50_000);
    assert_eq!(g.player.vx, 0);
    assert_eq!(g.player.vy, 0);
    assert!(!g.player.on_ground);
    // monsters return to the low end of their patrol, walking right
    assert_eq!(g.monsters[0].x, g.monsters[0].range_min + 4_000);
    assert_eq!(g.monsters[0].vx, 60_000);
    // score and consumed cells stay until the next full reset
    assert_eq!(g.score, 20);
    assert_eq!(g.consumed, vec![GridPos { col: 14, row: 6 }]);
}
