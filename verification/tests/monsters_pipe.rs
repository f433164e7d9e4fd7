//! Monster patrol, ground adherence, the defeat rule and the goal-pipe
//! victory sequence.

use platformer::entity::{Input, Monster, Player, Screen};
use platformer::game::GameState;
use platformer::geom::Rect;

const NO_INPUT: Input = Input { left: false, right: false, jump: false };

fn bare_state() -> GameState {
    let mut g = GameState::new(10_000_000);
    g.screen = Screen::Playing;
    g.tiles.clear();
    g.specials.clear();
    g.monsters.clear();
    g.pipe = None;
    g
}

#[test]
fn monster_reverses_at_patrol_high_end() {
    // range [100, 228] pixels, walking right at 60 px/s, width 24
    let mut g = bare_state();
    g.monsters.push(Monster {
        x: 203_000,
        y: 0,
        w: 24_000,
        h: 24_000,
        vx: 60_000,
        range_min: 100_000,
        range_max: 228_000,
    });
    g.tick(NO_INPUT, 300, 10_000_000, 10_000_000);
    // clamped to 228 - 24 and reversed on the same tick
    assert_eq!(g.monsters[0].x, 228_000 - 24_000);
    assert_eq!(g.monsters[0].vx, -60_000);
}

#[test]
fn monster_reverses_at_patrol_low_end() {
    let mut g = bare_state();
    g.monsters.push(Monster {
        x: 101_000,
        y: 0,
        w: 24_000,
        h: 24_000,
        vx: -60_000,
        range_min: 100_000,
        range_max: 228_000,
    });
    g.tick(NO_INPUT, 300, 10_000_000, 10_000_000);
    assert_eq!(g.monsters[0].x, 100_000);
    assert_eq!(g.monsters[0].vx, 60_000);
}

#[test]
fn monster_advances_at_patrol_speed() {
    // 60 px/s over 300 ms is 18 pixels
    let mut g = bare_state();
    g.monsters.push(Monster {
        x: 150_000,
        y: 0,
        w: 24_000,
        h: 24_000,
        vx: 60_000,
        range_min: 100_000,
        range_max: 300_000,
    });
    g.tick(NO_INPUT, 300, 10_000_000, 10_000_000);
    assert_eq!(g.monsters[0].x, 168_000);
    assert_eq!(g.monsters[0].vx, 60_000);
}

#[test]
fn monster_snaps_to_ground_or_falls() {
    // over a tile: feet snapped to the tile top
    let mut g = bare_state();
    g.tiles.push(Rect { x: 0, y: 124_000, w: 32_000, h: 32_000 });
    g.monsters.push(Monster {
        x: 0,
        y: 100_500,
        w: 24_000,
        h: 24_000,
        vx: 60_000,
        range_min: 0,
        range_max: 1_000_000,
    });
    g.tick(NO_INPUT, 100, 10_000_000, 10_000_000);
    assert_eq!(g.monsters[0].y, 124_000 - 24_000);

    // no ground below: free fall by the gravity rate for one tick
    let mut g = bare_state();
    g.monsters.push(Monster {
        x: 0,
        y: 0,
        w: 24_000,
        h: 24_000,
        vx: 60_000,
        range_min: 0,
        range_max: 1_000_000,
    });
    g.tick(NO_INPUT, 100, 10_000_000, 10_000_000);
    assert_eq!(g.monsters[0].y, 120_000);
}

#[test]
fn touching_a_monster_ends_the_round_at_once() {
    let mut g = bare_state();
    g.tiles.push(Rect { x: 96_000, y: 124_000, w: 32_000, h: 32_000 });
    g.player = Player {
        x: 100_000,
        y: 100_000,
        w: 24_000,
        h: 30_000,
        vx: 0,
        vy: 0,
        on_ground: false,
    };
    g.monsters.push(Monster {
        x: 100_000,
        y: 100_000,
        w: 24_000,
        h: 24_000,
        vx: 60_000,
        range_min: 0,
        range_max: 1_000_000,
    });
    // a second monster farther right: it must not move once the round ended
    g.monsters.push(Monster {
        x: 500_000,
        y: 0,
        w: 24_000,
        h: 24_000,
        vx: 60_000,
        range_min: 400_000,
        range_max: 600_000,
    });

    g.tick(NO_INPUT, 100, 10_000_000, 10_000_000);

    assert!(matches!(g.screen, Screen::GameOver));
    // detection freezes the rest of the monster pass
    assert_eq!(g.monsters[1].x, 500_000);
    assert_eq!(g.monsters[1].y, 0);

    // a frozen round no longer simulates at all
    let snapshot = (g.player, g.monsters.clone());
    g.tick(NO_INPUT, 100, 10_000_000, 10_000_000);
    assert_eq!(g.player, snapshot.0);
    assert_eq!(g.monsters, snapshot.1);
}

#[test]
fn pipe_entry_triggers_at_exact_tolerance() {
    // the player grounds on the viewport floor with its feet exactly
    // 6 pixels below the pipe's top edge
    let mut g = bare_state();
    g.offset_y = 250_000;
    g.pipe = Some(Rect { x: 736_000, y: 394_000, w: 32_000, h: 48_000 });
    g.player = Player {
        x: 740_000,
        y: 360_000,
        w: 24_000,
        h: 30_000,
        vx: 0,
        vy: 0,
        on_ground: false,
    };

    g.tick(NO_INPUT, 100, 800_000, 400_000);

    assert_eq!(g.player.y + g.player.h - 394_000, 6_000);
    assert!(g.player.on_ground);
    assert!(g.entering_pipe);
    assert_eq!(g.enter_timer, 0);
    assert_eq!(g.player.vx, 0);
    assert!(matches!(g.screen, Screen::Playing));
}

#[test]
fn pipe_entry_needs_center_over_pipe() {
    // same approach, but the player's center is left of the pipe span
    let mut g = bare_state();
    g.offset_y = 250_000;
    g.pipe = Some(Rect { x: 736_000, y: 394_000, w: 32_000, h: 48_000 });
    g.player = Player {
        x: 700_000,
        y: 360_000,
        w: 24_000,
        h: 30_000,
        vx: 0,
        vy: 0,
        on_ground: false,
    };
    g.tick(NO_INPUT, 100, 800_000, 400_000);
    assert!(!g.entering_pipe);
}

#[test]
fn pipe_entry_eases_in_and_ends_in_victory() {
    let mut g = bare_state();
    g.offset_y = 250_000;
    g.pipe = Some(Rect { x: 736_000, y: 394_000, w: 32_000, h: 48_000 });
    g.player = Player {
        x: 745_000,
        y: 360_000,
        w: 24_000,
        h: 30_000,
        vx: 0,
        vy: 0,
        on_ground: false,
    };
    g.tick(NO_INPUT, 100, 800_000, 400_000);
    assert!(g.entering_pipe);

    // entry ticks sink the player at 40 px/s and blend it toward the pipe
    // center; input is ignored
    let y_before = g.player.y;
    let x_before = g.player.x;
    g.tick(Input { left: true, right: false, jump: true }, 300, 800_000, 400_000);
    assert_eq!(g.player.y, y_before + 12_000);
    let target: i64 = 736_000 + 16_000 - 12_000;
    assert!(g.player.x >= target && g.player.x < x_before);
    assert_eq!(g.enter_timer, 300);
    assert!(matches!(g.screen, Screen::Playing));

    // the timer limit ends the animation in victory
    for _ in 0..4 {
        g.tick(NO_INPUT, 300, 800_000, 400_000);
    }
    assert!(matches!(g.screen, Screen::Victory));
}
