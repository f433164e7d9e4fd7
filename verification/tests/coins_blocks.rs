//! Coin spawning, bonus-block triggering, pickup and the consumed-cell
//! rule.

use platformer::entity::{GridPos, Input, Player, Screen};
use platformer::game::GameState;
use platformer::geom::Rect;

const NO_INPUT: Input = Input { left: false, right: false, jump: false };

/// A running game on the real level and an 800x400 viewport.
fn playing() -> GameState {
    let mut g = GameState::new(400_000);
    g.mouse_click(true, 300_000, 230_000, 800_000, 400_000);
    assert!(matches!(g.screen, Screen::Playing));
    g
}

#[test]
fn bonus_block_struck_from_below_emits_coin_and_turns_ordinary() {
    // the special block at grid (8,2) sits at (256, 240) pixels
    let mut g = GameState::new(400_000);
    g.screen = Screen::Playing;
    g.tiles.clear();
    g.monsters.clear();
    g.pipe = None;
    g.tiles.push(Rect { x: 256_000, y: 240_000, w: 32_000, h: 32_000 });
    g.specials = vec![GridPos { col: 8, row: 2 }, GridPos { col: 15, row: 2 }];
    g.player = Player {
        x: 260_000,
        y: 273_000,
        w: 24_000,
        h: 30_000,
        vx: 0,
        vy: -300_000,
        on_ground: false,
    };

    g.tick(NO_INPUT, 50, 10_000_000, 10_000_000);

    // head clamped below the block, rise stopped
    assert_eq!(g.player.y, 240_000 + 32_000);
    assert_eq!(g.player.vy, 0);
    // one coin directly above the block
    assert_eq!(g.coins.len(), 1);
    assert_eq!(g.coins[0].pos, GridPos { col: 8, row: 2 });
    assert_eq!(
        g.coins[0].rect,
        Rect { x: 264_000, y: 222_000, w: 16_000, h: 16_000 }
    );
    // the block left the special set but (15,2) is still special
    assert_eq!(g.specials, vec![GridPos { col: 15, row: 2 }]);
    // bumping is not collecting
    assert_eq!(g.score, 0);
}

#[test]
fn struck_block_spawns_no_second_coin() {
    let mut g = GameState::new(400_000);
    g.screen = Screen::Playing;
    g.tiles.clear();
    g.monsters.clear();
    g.pipe = None;
    g.tiles.push(Rect { x: 256_000, y: 240_000, w: 32_000, h: 32_000 });
    // still marked special, but a live coin already owns the cell
    g.specials = vec![GridPos { col: 8, row: 2 }];
    g.coins.push(platformer::entity::Coin {
        rect: Rect { x: 264_000, y: 222_000, w: 16_000, h: 16_000 },
        pos: GridPos { col: 8, row: 2 },
    });
    g.player = Player {
        x: 260_000,
        y: 273_000,
        w: 24_000,
        h: 30_000,
        vx: 0,
        vy: -300_000,
        on_ground: false,
    };

    g.tick(NO_INPUT, 50, 10_000_000, 10_000_000);

    assert_eq!(g.coins.len(), 1);
    assert!(g.specials.is_empty());
}

#[test]
fn timer_spawns_coin_over_middle_ground_tile() {
    let mut g = playing();
    // 17 ticks of 300 ms push the spawn timer past its 5000 ms period
    for _ in 0..17 {
        g.tick(NO_INPUT, 300, 800_000, 400_000);
    }
    assert_eq!(g.coins.len(), 1);
    assert_eq!(g.coins[0].pos, GridPos { col: 14, row: 6 });
    assert_eq!(
        g.coins[0].rect,
        Rect { x: 456_000, y: 350_000, w: 16_000, h: 16_000 }
    );
    assert_eq!(g.score, 0);
}

#[test]
fn no_ground_row_means_no_coin() {
    // on a very tall viewport no tile counts as ground, so the timer rolls
    // over without spawning anything
    let mut g = playing();
    for _ in 0..17 {
        g.tick(NO_INPUT, 300, 10_000_000, 10_000_000);
    }
    assert!(g.coins.is_empty());
    // the timer did roll over rather than accumulate
    assert!(g.spawn_timer < 5_000);
}

#[test]
fn pickup_scores_consumes_and_arms_timer() {
    let mut g = playing();
    g.monsters.clear();
    for _ in 0..17 {
        g.tick(NO_INPUT, 300, 800_000, 400_000);
    }
    assert_eq!(g.coins.len(), 1);
    // drop the player onto the coin
    g.player.x = 450_000;
    g.player.y = 330_000;
    g.player.vy = 0;
    g.tick(NO_INPUT, 16, 800_000, 400_000);

    assert_eq!(g.score, 10);
    assert!(g.coins.is_empty());
    assert!(g.consumed.contains(&GridPos { col: 14, row: 6 }));
    // the timer is forced to a full period, so the next tick may roll again
    assert_eq!(g.spawn_timer, 5_000);
}

#[test]
fn consumed_cell_never_respawns() {
    let mut g = playing();
    g.monsters.clear();
    // consume the middle ground cell, then let many periods pass
    for _ in 0..17 {
        g.tick(NO_INPUT, 300, 800_000, 400_000);
    }
    g.player.x = 450_000;
    g.player.y = 330_000;
    g.tick(NO_INPUT, 16, 800_000, 400_000);
    assert_eq!(g.score, 10);
    // park the player away from the spawn cell
    g.player.x = 50_000;
    g.player.y = 50_000;
    for _ in 0..40 {
        g.tick(NO_INPUT, 300, 800_000, 400_000);
    }
    assert!(g.coins.is_empty());
    assert_eq!(g.score, 10);

    // a player-only reset does not reopen the cell either
    g.reset_player();
    g.screen = Screen::Playing;
    for _ in 0..40 {
        g.tick(NO_INPUT, 300, 800_000, 400_000);
    }
    assert!(g.coins.is_empty());

    // only a full game reset clears the consumed set
    g.reset_game();
    assert!(g.consumed.is_empty());
}
