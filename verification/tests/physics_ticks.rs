//! Per-tick physics: integration, axis-separated resolution, jumping,
//! input mapping and viewport clamping.

use platformer::entity::{Input, Player, Screen};
use platformer::game::GameState;
use platformer::geom::Rect;

const NO_INPUT: Input = Input { left: false, right: false, jump: false };

/// A bare playing state with no geometry, on a large viewport.
fn bare_state() -> GameState {
    let mut g = GameState::new(10_000_000);
    g.reset_game();
    g.screen = Screen::Playing;
    g.tiles.clear();
    g.specials.clear();
    g.monsters.clear();
    g.pipe = None;
    g
}

#[test]
fn falling_player_lands_on_tile_top() {
    // a tile whose top edge is at 100 pixels
    let mut g = bare_state();
    g.tiles.push(Rect { x: 0, y: 100_000, w: 32_000, h: 32_000 });
    g.player = Player { x: 0, y: 69_000, w: 24_000, h: 30_000, vx: 0, vy: 10_000, on_ground: false };

    g.tick(NO_INPUT, 100, 10_000_000, 10_000_000);

    // y == 100 - player height, fall stopped, grounded
    assert_eq!(g.player.y, 100_000 - 30_000);
    assert_eq!(g.player.vy, 0);
    assert!(g.player.on_ground);
}

#[test]
fn rightward_mover_is_pushed_to_tile_left_edge() {
    let mut g = bare_state();
    g.tiles.push(Rect { x: 100_000, y: 0, w: 32_000, h: 32_000 });
    g.player = Player { x: 70_000, y: 10_000, w: 24_000, h: 30_000, vx: 0, vy: 0, on_ground: false };

    g.tick(Input { left: false, right: true, jump: false }, 100, 10_000_000, 10_000_000);

    // pushed back flush to the tile's left edge, horizontal motion stopped,
    // vertical position unaffected by the horizontal pass (gravity moved it)
    assert_eq!(g.player.x, 100_000 - 24_000);
    assert_eq!(g.player.vx, 0);
    assert_eq!(g.player.y, 10_000 + 12_000);
}

#[test]
fn leftward_mover_is_pushed_to_tile_right_edge() {
    let mut g = bare_state();
    g.tiles.push(Rect { x: 100_000, y: 0, w: 32_000, h: 32_000 });
    g.player = Player {
        x: 140_000,
        y: 10_000,
        w: 24_000,
        h: 30_000,
        vx: 0,
        vy: 0,
        on_ground: false,
    };

    g.tick(Input { left: true, right: false, jump: false }, 100, 10_000_000, 10_000_000);

    assert_eq!(g.player.x, 100_000 + 32_000);
    assert_eq!(g.player.vx, 0);
}

#[test]
fn resolution_follows_parse_order() {
    // two mutually overlapping tiles; the earlier one in parse order
    // resolves first and fully, which fixes where the player ends up
    let mut g = bare_state();
    g.tiles.push(Rect { x: 100_000, y: 0, w: 32_000, h: 32_000 });
    g.tiles.push(Rect { x: 90_000, y: 0, w: 32_000, h: 32_000 });
    g.player = Player { x: 70_000, y: 1_000, w: 24_000, h: 30_000, vx: 0, vy: 0, on_ground: false };

    g.tick(Input { left: false, right: true, jump: false }, 100, 10_000_000, 10_000_000);

    // the first tile pushes the player to 76; once horizontal velocity is
    // zeroed, the second tile no longer pushes
    assert_eq!(g.player.x, 76_000);
    assert_eq!(g.player.vx, 0);
}

#[test]
fn jump_needs_ground_and_launches_upward() {
    let mut g = bare_state();
    g.tiles.push(Rect { x: 0, y: 100_000, w: 32_000, h: 32_000 });
    g.player = Player { x: 0, y: 70_000, w: 24_000, h: 30_000, vx: 0, vy: 0, on_ground: true };

    g.tick(Input { left: false, right: false, jump: true }, 100, 10_000_000, 10_000_000);

    // launch -420 px/s plus one tick of gravity, integrated over 100 ms
    assert_eq!(g.player.vy, -420_000 + 120_000);
    assert_eq!(g.player.y, 70_000 - 30_000);
    assert!(!g.player.on_ground);

    // airborne now: a second jump press must not launch again
    let vy_before = g.player.vy;
    g.tick(Input { left: false, right: false, jump: true }, 100, 10_000_000, 10_000_000);
    assert_eq!(g.player.vy, vy_before + 120_000);
}

#[test]
fn input_maps_to_walk_speed() {
    let mut g = bare_state();
    g.player = Player {
        x: 500_000,
        y: 10_000,
        w: 24_000,
        h: 30_000,
        vx: 0,
        vy: 0,
        on_ground: false,
    };
    g.tick(Input { left: true, right: false, jump: false }, 100, 10_000_000, 10_000_000);
    assert_eq!(g.player.x, 480_000);
    assert_eq!(g.player.vx, -200_000);

    g.player.x = 500_000;
    g.tick(Input { left: false, right: true, jump: false }, 100, 10_000_000, 10_000_000);
    assert_eq!(g.player.x, 520_000);
    assert_eq!(g.player.vx, 200_000);

    // both directions cancel
    g.player.x = 500_000;
    g.tick(Input { left: true, right: true, jump: false }, 100, 10_000_000, 10_000_000);
    assert_eq!(g.player.x, 500_000);
    assert_eq!(g.player.vx, 0);
}

#[test]
fn viewport_clamps_all_sides_and_floor_grounds() {
    let mut g = bare_state();
    g.player = Player {
        x: -50_000,
        y: 390_000,
        w: 24_000,
        h: 30_000,
        vx: 0,
        vy: 0,
        on_ground: false,
    };
    g.tick(NO_INPUT, 0, 400_000, 400_000);
    // pulled inside on the left, dropped onto the floor
    assert_eq!(g.player.x, 0);
    assert_eq!(g.player.y, 400_000 - 30_000);
    assert_eq!(g.player.vy, 0);
    assert!(g.player.on_ground);

    let mut g = bare_state();
    g.player = Player {
        x: 395_000,
        y: -90_000,
        w: 24_000,
        h: 30_000,
        vx: 0,
        vy: 0,
        on_ground: false,
    };
    g.tick(NO_INPUT, 0, 400_000, 400_000);
    // pulled inside on the right and below the top
    assert_eq!(g.player.x, 400_000 - 24_000);
    assert_eq!(g.player.y, 0);
}

#[test]
fn inert_screens_do_not_simulate() {
    for screen in [Screen::Menu, Screen::GameOver, Screen::Victory] {
        let mut g = bare_state();
        g.screen = screen;
        g.player.vy = 12_345;
        let before = g.player;
        g.tick(NO_INPUT, 100, 10_000_000, 10_000_000);
        assert_eq!(g.player, before);
    }
}
