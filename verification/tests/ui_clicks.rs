//! The click-driven screen state machine, the button regions and the scene
//! snapshot.

use platformer::entity::{Coin, GridPos, Monster, Player, Screen};
use platformer::game::{
    gameover_quit_button, quit_button, restart_button, start_button, victory_button, GameState,
};
use platformer::geom::Rect;
use platformer::scene::Sprite;

#[test]
fn button_regions_match_the_drawn_layout() {
    // 800x400 viewport, in sub-units
    assert_eq!(
        start_button(800_000, 400_000),
        Rect { x: 290_000, y: 220_000, w: 220_000, h: 56_000 }
    );
    assert_eq!(
        quit_button(800_000),
        Rect { x: 712_000, y: 8_000, w: 80_000, h: 28_000 }
    );
    assert_eq!(
        restart_button(800_000, 400_000),
        Rect { x: 330_000, y: 178_000, w: 140_000, h: 44_000 }
    );
    assert_eq!(
        gameover_quit_button(800_000, 400_000),
        Rect { x: 330_000, y: 234_000, w: 140_000, h: 44_000 }
    );
    assert_eq!(
        victory_button(800_000, 400_000),
        Rect { x: 310_000, y: 240_000, w: 180_000, h: 44_000 }
    );
}

#[test]
fn menu_start_click_begins_a_fresh_game() {
    let mut g = GameState::new(400_000);
    g.score = 99;
    g.consumed.push(GridPos { col: 14, row: 6 });
    g.mouse_click(true, 300_000, 230_000, 800_000, 400_000);
    assert!(matches!(g.screen, Screen::Playing));
    assert_eq!(g.score, 0);
    assert!(g.consumed.is_empty());
    assert_eq!(g.player.x, 50_000);
}

#[test]
fn clicks_outside_or_with_other_buttons_do_nothing() {
    let mut g = GameState::new(400_000);
    // outside the start button
    g.mouse_click(true, 10_000, 10_000, 800_000, 400_000);
    assert!(matches!(g.screen, Screen::Menu));
    // right-button click on the start button
    g.mouse_click(false, 300_000, 230_000, 800_000, 400_000);
    assert!(matches!(g.screen, Screen::Menu));
}

#[test]
fn quit_click_returns_to_menu_and_keeps_the_run() {
    let mut g = GameState::new(400_000);
    g.mouse_click(true, 300_000, 230_000, 800_000, 400_000);
    g.score = 20;
    g.consumed.push(GridPos { col: 14, row: 6 });
    g.monsters[0].x = 500_000;
    g.mouse_click(true, 750_000, 20_000, 800_000, 400_000);
    assert!(matches!(g.screen, Screen::Menu));
    // player-only reset: score and consumed cells stay
    assert_eq!(g.score, 20);
    assert_eq!(g.consumed, vec![GridPos { col: 14, row: 6 }]);
    assert_eq!(g.player.x, 50_000);
    assert_eq!(g.monsters[0].x, g.monsters[0].range_min + 4_000);
}

#[test]
fn gameover_restart_and_quit_clicks() {
    let mut g = GameState::new(400_000);
    g.screen = Screen::GameOver;
    g.score = 50;
    g.mouse_click(true, 400_000, 200_000, 800_000, 400_000);
    assert!(matches!(g.screen, Screen::Playing));
    assert_eq!(g.score, 0);

    let mut g = GameState::new(400_000);
    g.screen = Screen::GameOver;
    g.score = 50;
    g.mouse_click(true, 400_000, 250_000, 800_000, 400_000);
    assert!(matches!(g.screen, Screen::Menu));
    assert_eq!(g.score, 50);
}

#[test]
fn victory_menu_click() {
    let mut g = GameState::new(400_000);
    g.screen = Screen::Victory;
    g.score = 30;
    g.mouse_click(true, 400_000, 260_000, 800_000, 400_000);
    assert!(matches!(g.screen, Screen::Menu));
    assert_eq!(g.score, 30);
}

#[test]
fn scene_lists_drawables_in_paint_order() {
    let mut g = GameState::new(400_000);
    g.tiles.clear();
    g.specials.clear();
    g.monsters.clear();
    g.coins.clear();
    // one tile hidden by the pipe, one visible
    g.pipe = Some(Rect { x: 736_000, y: 320_000, w: 32_000, h: 48_000 });
    g.tiles.push(Rect { x: 736_000, y: 320_000, w: 32_000, h: 8_000 });
    g.tiles.push(Rect { x: 0, y: 368_000, w: 32_000, h: 32_000 });
    g.specials.push(GridPos { col: 8, row: 2 });
    g.coins.push(Coin {
        rect: Rect { x: 264_000, y: 222_000, w: 16_000, h: 16_000 },
        pos: GridPos { col: 8, row: 2 },
    });
    g.monsters.push(Monster {
        x: 452_000,
        y: 344_000,
        w: 24_000,
        h: 24_000,
        vx: 60_000,
        range_min: 368_000,
        range_max: 560_000,
    });
    g.player = Player {
        x: 50_000,
        y: 50_000,
        w: 24_000,
        h: 30_000,
        vx: 0,
        vy: 0,
        on_ground: false,
    };

    let items = g.scene();
    let kinds: Vec<Sprite> = items.iter().map(|it| it.sprite).collect();
    assert_eq!(
        kinds,
        vec![
            Sprite::Tile,
            Sprite::Pipe,
            Sprite::Player,
            Sprite::SpecialBlock,
            Sprite::Coin,
            Sprite::Monster,
        ]
    );
    // the pipe-covered cap tile is not painted; the visible tile is
    assert_eq!(items[0].rect, Rect { x: 0, y: 368_000, w: 32_000, h: 32_000 });
    assert_eq!(items[1].rect, Rect { x: 736_000, y: 320_000, w: 32_000, h: 48_000 });
    assert_eq!(items[2].rect, Rect { x: 50_000, y: 50_000, w: 24_000, h: 30_000 });
    // a special block is painted at its grid cell
    assert_eq!(
        items[3].rect,
        Rect { x: 256_000, y: g.offset_y + 64_000, w: 32_000, h: 32_000 }
    );
    assert_eq!(items[4].rect, Rect { x: 264_000, y: 222_000, w: 16_000, h: 16_000 });
    assert_eq!(items[5].rect, Rect { x: 452_000, y: 344_000, w: 24_000, h: 24_000 });
}
