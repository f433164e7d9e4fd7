//! The simulation state: one owned instance holds the level geometry, the
//! player, monsters, coins, score and screen mode. Building, resetting and
//! the click-driven screen state machine live here; the per-tick simulation
//! is in [`crate::tick`].

use vstd::prelude::*;
use vstd::set_lib::{lemma_len_subset, lemma_int_range, set_int_range};
use crate::entity::{coins_view, monsters_view, pos_view, wf_coin, wf_monster, wf_player, wf_pos,
    Coin, CoinV, GridPos, Monster, MonsterV, Player, PlayerV, PosV, Screen};
use crate::geom::{opt_rect_view, rects_view, Rect, RectV};
use crate::level::{build_level, level_monsters, level_pipe, level_tiles, lemma_level_monsters_wf,
    lemma_level_pipe_wf, lemma_level_tiles_wf, specials_spec, wf_pipe, wf_tile};
use crate::{COIN_SCORE, COLS, ENTER_LIMIT, OFF_MIN, PIPE_H, PLAYER_H, PLAYER_W,
    ROWS, SCALE, SPAWN_INTERVAL, SPAWN_X, SPAWN_Y, TILE, WIN_MAX};

verus! {

/// The whole simulation state; the host owns exactly one and hands it to
/// [`GameState::tick`] and [`GameState::mouse_click`].
pub struct GameState {
    pub screen: Screen,
    pub player: Player,
    /// Every solid collision box, in the level's parse order.
    pub tiles: Vec<Rect>,
    /// Grid cells that still hold a bonus block.
    pub specials: Vec<GridPos>,
    /// Live coins.
    pub coins: Vec<Coin>,
    /// Grid cells whose coin was collected this game; closed for respawns.
    pub consumed: Vec<GridPos>,
    pub monsters: Vec<Monster>,
    pub score: i64,
    /// Elapsed milliseconds of the periodic coin-spawn timer.
    pub spawn_timer: i64,
    /// Period of the coin-spawn timer in milliseconds.
    pub spawn_interval: i64,
    /// Vertical offset aligning the map's bottom row with the viewport
    /// bottom; fixed at build time so rebuilds are stable.
    pub offset_y: i64,
    /// The goal pipe, if the level has one.
    pub pipe: Option<Rect>,
    /// Whether the scripted pipe-entry animation is running.
    pub entering_pipe: bool,
    /// Elapsed milliseconds of the pipe-entry animation.
    pub enter_timer: i64,
}

/// Mathematical shadow of [`GameState`].
#[verifier::ext_equal]
pub ghost struct GameV {
    pub screen: Screen,
    pub player: PlayerV,
    pub tiles: Seq<RectV>,
    pub specials: Seq<PosV>,
    pub coins: Seq<CoinV>,
    pub consumed: Seq<PosV>,
    pub monsters: Seq<MonsterV>,
    pub score: int,
    pub spawn_timer: int,
    pub spawn_interval: int,
    pub offset_y: int,
    pub pipe: Option<RectV>,
    pub entering_pipe: bool,
    pub enter_timer: int,
}

impl View for GameState {
    type V = GameV;

    open spec fn view(&self) -> GameV {
        GameV {
            screen: self.screen,
            player: self.player@,
            tiles: rects_view(self.tiles@),
            specials: pos_view(self.specials@),
            coins: coins_view(self.coins@),
            consumed: pos_view(self.consumed@),
            monsters: monsters_view(self.monsters@),
            score: self.score as int,
            spawn_timer: self.spawn_timer as int,
            spawn_interval: self.spawn_interval as int,
            offset_y: self.offset_y as int,
            pipe: opt_rect_view(self.pipe),
            entering_pipe: self.entering_pipe,
            enter_timer: self.enter_timer as int,
        }
    }
}

/// Some live coin sits at this grid cell.
pub open spec fn coin_at(coins: Seq<CoinV>, pos: PosV) -> bool {
    exists|i: int| 0 <= i < coins.len() && coins[i].pos == pos
}

/// The grid cell occurs in the list.
pub open spec fn pos_in(list: Seq<PosV>, pos: PosV) -> bool {
    exists|i: int| 0 <= i < list.len() && list[i] == pos
}

/// Well-formed simulation state: the invariant every public operation
/// preserves. Geometry is on the grid, coins are pairwise distinct by grid
/// cell and never sit on a consumed cell, consumed cells are pairwise
/// distinct, and the score counts exactly the consumed cells.
pub open spec fn wf(g: GameV) -> bool {
    &&& wf_player(g.player)
    &&& OFF_MIN <= g.offset_y <= WIN_MAX
    &&& forall|i: int| 0 <= i < g.tiles.len() ==> wf_tile(#[trigger] g.tiles[i], g.offset_y)
    &&& forall|i: int| 0 <= i < g.specials.len() ==> wf_pos(#[trigger] g.specials[i])
    &&& forall|i: int| 0 <= i < g.coins.len() ==> wf_coin(#[trigger] g.coins[i])
    &&& forall|i: int, j: int|
        0 <= i < j < g.coins.len() ==> (#[trigger] g.coins[i].pos) != (#[trigger] g.coins[j].pos)
    &&& forall|i: int| 0 <= i < g.coins.len() ==> !pos_in(g.consumed, (#[trigger] g.coins[i]).pos)
    &&& forall|i: int, j: int|
        0 <= i < j < g.consumed.len() ==> (#[trigger] g.consumed[i]) != (#[trigger] g.consumed[j])
    &&& forall|i: int| 0 <= i < g.consumed.len() ==> wf_pos(#[trigger] g.consumed[i])
    &&& g.score == COIN_SCORE * g.consumed.len()
    &&& 0 <= g.spawn_timer <= g.spawn_interval
    &&& g.spawn_interval == SPAWN_INTERVAL
    &&& forall|i: int| 0 <= i < g.monsters.len() ==> wf_monster(#[trigger] g.monsters[i])
    &&& match g.pipe {
        Some(p) => wf_pipe(p, g.offset_y),
        None => true,
    }
    &&& 0 <= g.enter_timer <= ENTER_LIMIT + crate::DT_MAX
    &&& (g.screen == Screen::Playing && g.entering_pipe ==> g.enter_timer <= ENTER_LIMIT
        && match g.pipe {
        Some(p) => g.player.y <= p.y + PIPE_H / 2,
        None => true,
    })
}

/// Pairwise-distinct grid cells of the fixed map are at most `COLS * ROWS`
/// many; bounds the consumed list and with it the score.
pub proof fn lemma_distinct_cells_len(s: Seq<PosV>)
    requires
        forall|i: int, j: int| 0 <= i < j < s.len() ==> (#[trigger] s[i]) != (#[trigger] s[j]),
        forall|i: int| 0 <= i < s.len() ==> wf_pos(#[trigger] s[i]),
    ensures
        s.len() <= COLS * ROWS,
{
    let keys = Seq::new(s.len(), |i: int| s[i].col * (ROWS as int) + s[i].row);
    assert forall|i: int, j: int| 0 <= i < j < keys.len() implies (#[trigger] keys[i])
        != (#[trigger] keys[j]) by {
        assert(s[i] != s[j]);
        assert(wf_pos(s[i]) && wf_pos(s[j]));
        if s[i].col == s[j].col {
            assert(keys[i] - keys[j] == s[i].row - s[j].row);
        } else {
            assert(keys[i] != keys[j]) by (nonlinear_arith)
                requires
                    keys[i] == s[i].col * 7 + s[i].row,
                    keys[j] == s[j].col * 7 + s[j].row,
                    s[i].col != s[j].col,
                    0 <= s[i].row < 7,
                    0 <= s[j].row < 7,
            ;
        }
    }
    assert(keys.no_duplicates());
    keys.unique_seq_to_set();
    lemma_int_range(0, (COLS * ROWS) as int);
    assert forall|k: int| keys.to_set().contains(k) implies set_int_range(
        0,
        (COLS * ROWS) as int,
    ).contains(k) by {
        let i = choose|i: int| 0 <= i < keys.len() && keys[i] == k;
        assert(wf_pos(s[i]));
        assert(0 <= s[i].col * 7 + s[i].row < 196) by (nonlinear_arith)
            requires 0 <= s[i].col < 28, 0 <= s[i].row < 7;
    }
    lemma_len_subset(keys.to_set(), set_int_range(0, (COLS * ROWS) as int));
}

/// The player at its fixed spawn: spawn corner, zero velocity, airborne.
pub open spec fn spawn_player() -> PlayerV {
    PlayerV {
        x: SPAWN_X as int,
        y: SPAWN_Y as int,
        w: PLAYER_W as int,
        h: PLAYER_H as int,
        vx: 0,
        vy: 0,
        on_ground: false,
    }
}

/// A full game reset: geometry, special blocks, pipe and monsters rebuilt
/// deterministically from the fixed map at the stored offset; player at
/// spawn; coins, consumed cells, score and timers cleared. The screen mode
/// is left to the caller's transition.
pub open spec fn reset_spec(g: GameV) -> GameV {
    GameV {
        screen: g.screen,
        player: spawn_player(),
        tiles: level_tiles(g.offset_y),
        specials: specials_spec(),
        coins: Seq::empty(),
        consumed: Seq::empty(),
        monsters: level_monsters(g.offset_y),
        score: 0,
        spawn_timer: 0,
        spawn_interval: g.spawn_interval,
        offset_y: g.offset_y,
        pipe: level_pipe(g.offset_y),
        entering_pipe: false,
        enter_timer: 0,
    }
}

/// A player-only reset, for returning to the menu mid-game: player back at
/// spawn and each monster back at the low end of its patrol, walking right.
/// Level, coins, consumed cells and score stay.
pub open spec fn reset_player_spec(g: GameV) -> GameV {
    GameV {
        player: spawn_player(),
        monsters: g.monsters.map_values(
            |m: MonsterV|
                MonsterV {
                    x: m.range_min + 4 * SCALE,
                    vx: if m.vx >= 0 {
                        m.vx
                    } else {
                        -m.vx
                    },
                    ..m
                },
        ),
        ..g
    }
}

/// The state of a freshly constructed game: menu screen, fresh level at the
/// offset that aligns the map's bottom row with the viewport bottom.
pub open spec fn init_spec(win_h: int) -> GameV {
    let off = win_h - (ROWS as int) * (TILE as int);
    GameV {
        screen: Screen::Menu,
        player: spawn_player(),
        tiles: level_tiles(off),
        specials: specials_spec(),
        coins: Seq::empty(),
        consumed: Seq::empty(),
        monsters: level_monsters(off),
        score: 0,
        spawn_timer: 0,
        spawn_interval: SPAWN_INTERVAL as int,
        offset_y: off,
        pipe: level_pipe(off),
        entering_pipe: false,
        enter_timer: 0,
    }
}

/// A state built fresh from the map at an in-range offset is well formed.
pub proof fn lemma_reset_wf(g: GameV)
    requires
        wf(g),
    ensures
        wf(reset_spec(g)),
{
    lemma_level_tiles_wf(g.offset_y);
    lemma_level_monsters_wf(g.offset_y);
    lemma_level_pipe_wf(g.offset_y);
}

/// A player-only reset combined with the return to the menu keeps the state
/// well formed.
pub proof fn lemma_reset_player_wf(g: GameV)
    requires
        wf(g),
    ensures
        wf(GameV { screen: Screen::Menu, ..reset_player_spec(g) }),
{
    let r = reset_player_spec(g);
    assert forall|i: int| 0 <= i < r.monsters.len() implies wf_monster(
        #[trigger] r.monsters[i],
    ) by {
        assert(wf_monster(g.monsters[i]));
    }
}

/// A fresh game at an in-range viewport height is well formed.
pub proof fn lemma_init_wf(win_h: int)
    requires
        0 <= win_h <= WIN_MAX,
    ensures
        wf(init_spec(win_h)),
{
    let off = win_h - (ROWS as int) * (TILE as int);
    lemma_level_tiles_wf(off);
    lemma_level_monsters_wf(off);
    lemma_level_pipe_wf(off);
}

impl GameState {
    /// Builds a fresh game for a viewport of the given height: the level
    /// bottom row is aligned with the viewport bottom (the offset may be
    /// negative when the level is taller than the viewport) and the offset
    /// is kept for every later rebuild.
    pub fn new(win_h: i64) -> (r: GameState)
        requires
            0 <= win_h <= WIN_MAX,
        ensures
            r@ == init_spec(win_h as int),
            wf(r@),
    {
        let off: i64 = win_h - (ROWS as i64) * TILE;
        let parts = build_level(off);
        let r = GameState {
            screen: Screen::Menu,
            player: Player {
                x: SPAWN_X,
                y: SPAWN_Y,
                w: PLAYER_W,
                h: PLAYER_H,
                vx: 0,
                vy: 0,
                on_ground: false,
            },
            tiles: parts.tiles,
            specials: parts.specials,
            coins: Vec::new(),
            consumed: Vec::new(),
            monsters: parts.monsters,
            score: 0,
            spawn_timer: 0,
            spawn_interval: SPAWN_INTERVAL,
            offset_y: off,
            pipe: parts.pipe,
            entering_pipe: false,
            enter_timer: 0,
        };
        proof {
            assert(r@ =~= init_spec(win_h as int));
            lemma_init_wf(win_h as int);
        }
        r
    }

    /// Rebuilds the level from the fixed map at the stored offset and clears
    /// the run: player to spawn with zero velocity and airborne, score zero,
    /// no coins, no consumed cells, timers zero, pipe entry off, monsters
    /// respawned. The same call yields the same state every time.
    pub fn reset_game(&mut self)
        requires
            wf(old(self)@),
        ensures
            final(self)@ == reset_spec(old(self)@),
            wf(final(self)@),
    {
        let parts = build_level(self.offset_y);
        self.tiles = parts.tiles;
        self.specials = parts.specials;
        self.pipe = parts.pipe;
        self.monsters = parts.monsters;
        self.coins = Vec::new();
        self.consumed = Vec::new();
        self.score = 0;
        self.spawn_timer = 0;
        self.player = Player {
            x: SPAWN_X,
            y: SPAWN_Y,
            w: PLAYER_W,
            h: PLAYER_H,
            vx: 0,
            vy: 0,
            on_ground: false,
        };
        self.entering_pipe = false;
        self.enter_timer = 0;
        proof {
            assert(self@ =~= reset_spec(old(self)@));
            lemma_reset_wf(old(self)@);
        }
    }

    /// Returns the player to spawn and every monster to the low end of its
    /// patrol walking right; everything else stays.
    pub fn reset_player(&mut self)
        requires
            wf(old(self)@),
        ensures
            final(self)@ == reset_player_spec(old(self)@),
    {
        self.player = Player {
            x: SPAWN_X,
            y: SPAWN_Y,
            w: PLAYER_W,
            h: PLAYER_H,
            vx: 0,
            vy: 0,
            on_ground: false,
        };
        let mut fresh: Vec<Monster> = Vec::new();
        let mut i: usize = 0;
        while i < self.monsters.len()
            invariant
                i <= self.monsters.len(),
                self.monsters@ == old(self).monsters@,
                self.player@ == spawn_player(),
                forall|k: int|
                    0 <= k < self.monsters@.len() ==> wf_monster(
                        #[trigger] monsters_view(self.monsters@)[k],
                    ),
                monsters_view(fresh@) == reset_player_spec(old(self)@).monsters.take(i as int),
            decreases self.monsters.len() - i,
        {
            proof {
                assert(wf_monster(monsters_view(self.monsters@)[i as int]));
            }
            let m = self.monsters[i];
            let mag: i64 = if m.vx >= 0 {
                m.vx
            } else {
                -m.vx
            };
            let nm = Monster { x: m.range_min + 4 * SCALE, vx: mag, ..m };
            let ghost fbefore = fresh@;
            fresh.push(nm);
            proof {
                let spec_ms = reset_player_spec(old(self)@).monsters;
                assert(m@ == old(self)@.monsters[i as int]);
                assert(nm@ == spec_ms[i as int]);
                assert(monsters_view(fresh@) =~= monsters_view(fbefore).push(nm@));
                assert(spec_ms.take(i + 1) =~= spec_ms.take(i as int).push(spec_ms[i as int]));
                assert(monsters_view(fresh@) =~= spec_ms.take(i + 1));
            }
            i += 1;
        }
        self.monsters = fresh;
        proof {
            assert(reset_player_spec(old(self)@).monsters.take(
                old(self).monsters@.len() as int,
            ) =~= reset_player_spec(old(self)@).monsters);
            assert(self@ =~= reset_player_spec(old(self)@));
        }
    }
}

/// The menu's start button region for a given viewport.
pub open spec fn start_button_spec(win_w: int, win_h: int) -> RectV {
    RectV { x: win_w / 2 - 110_000, y: win_h * 55 / 100, w: 220_000, h: 56_000 }
}

/// The in-game quit button region (top right).
pub open spec fn quit_button_spec(win_w: int) -> RectV {
    RectV { x: win_w - 88_000, y: 8_000, w: 80_000, h: 28_000 }
}

/// The restart button region of the game-over screen.
pub open spec fn restart_button_spec(win_w: int, win_h: int) -> RectV {
    RectV { x: win_w / 2 - 70_000, y: win_h / 2 - 22_000, w: 140_000, h: 44_000 }
}

/// The quit button region of the game-over screen, below restart.
pub open spec fn gameover_quit_button_spec(win_w: int, win_h: int) -> RectV {
    RectV { x: win_w / 2 - 70_000, y: win_h / 2 - 22_000 + 56_000, w: 140_000, h: 44_000 }
}

/// The menu button region of the victory screen.
pub open spec fn victory_button_spec(win_w: int, win_h: int) -> RectV {
    RectV { x: win_w / 2 - 90_000, y: win_h * 6 / 10, w: 180_000, h: 44_000 }
}

/// A point lies in a region, edges included.
pub open spec fn in_region(r: RectV, x: int, y: int) -> bool {
    r.x <= x <= r.x + r.w && r.y <= y <= r.y + r.h
}

/// Halves a nonnegative length.
fn half_nonneg(v: i64) -> (r: i64)
    requires
        0 <= v,
    ensures
        r == v as int / 2,
{
    ((v as u64) / 2) as i64
}

/// Executable form of [`start_button_spec`]; the host draws the button at
/// the same place the click handler tests.
pub fn start_button(win_w: i64, win_h: i64) -> (r: Rect)
    requires
        0 <= win_w <= WIN_MAX,
        0 <= win_h <= WIN_MAX,
    ensures
        r@ == start_button_spec(win_w as int, win_h as int),
{
    let y: i64 = ((win_h as u64) * 55 / 100) as i64;
    Rect { x: half_nonneg(win_w) - 110_000, y, w: 220_000, h: 56_000 }
}

/// Executable form of [`quit_button_spec`].
pub fn quit_button(win_w: i64) -> (r: Rect)
    requires
        0 <= win_w <= WIN_MAX,
    ensures
        r@ == quit_button_spec(win_w as int),
{
    Rect { x: win_w - 88_000, y: 8_000, w: 80_000, h: 28_000 }
}

/// Executable form of [`restart_button_spec`].
pub fn restart_button(win_w: i64, win_h: i64) -> (r: Rect)
    requires
        0 <= win_w <= WIN_MAX,
        0 <= win_h <= WIN_MAX,
    ensures
        r@ == restart_button_spec(win_w as int, win_h as int),
{
    Rect { x: half_nonneg(win_w) - 70_000, y: half_nonneg(win_h) - 22_000, w: 140_000, h: 44_000 }
}

/// Executable form of [`gameover_quit_button_spec`].
pub fn gameover_quit_button(win_w: i64, win_h: i64) -> (r: Rect)
    requires
        0 <= win_w <= WIN_MAX,
        0 <= win_h <= WIN_MAX,
    ensures
        r@ == gameover_quit_button_spec(win_w as int, win_h as int),
{
    Rect {
        x: half_nonneg(win_w) - 70_000,
        y: half_nonneg(win_h) - 22_000 + 56_000,
        w: 140_000,
        h: 44_000,
    }
}

/// Executable form of [`victory_button_spec`].
pub fn victory_button(win_w: i64, win_h: i64) -> (r: Rect)
    requires
        0 <= win_w <= WIN_MAX,
        0 <= win_h <= WIN_MAX,
    ensures
        r@ == victory_button_spec(win_w as int, win_h as int),
{
    let y: i64 = ((win_h as u64) * 6 / 10) as i64;
    Rect { x: half_nonneg(win_w) - 90_000, y, w: 180_000, h: 44_000 }
}

/// Executable form of [`in_region`].
pub fn region_hit(r: &Rect, x: i64, y: i64) -> (b: bool)
    requires
        crate::geom::in_box_range(r@),
    ensures
        b == in_region(r@, x as int, y as int),
{
    r.x <= x && x <= r.x + r.w && r.y <= y && y <= r.y + r.h
}

/// The screen state machine driven by pointer clicks: starting a game from
/// the menu performs a full reset; quitting back to the menu, from play,
/// defeat or victory, resets only the player; restarting after defeat
/// performs a full reset. Clicks elsewhere, or with another button, change
/// nothing.
pub open spec fn click_spec(
    g: GameV,
    left: bool,
    x: int,
    y: int,
    win_w: int,
    win_h: int,
) -> GameV {
    if !left {
        g
    } else {
        match g.screen {
            Screen::Menu => {
                if in_region(start_button_spec(win_w, win_h), x, y) {
                    GameV { screen: Screen::Playing, ..reset_spec(g) }
                } else {
                    g
                }
            },
            Screen::Playing => {
                if in_region(quit_button_spec(win_w), x, y) {
                    GameV { screen: Screen::Menu, ..reset_player_spec(g) }
                } else {
                    g
                }
            },
            Screen::GameOver => {
                if in_region(restart_button_spec(win_w, win_h), x, y) {
                    GameV { screen: Screen::Playing, ..reset_spec(g) }
                } else if in_region(gameover_quit_button_spec(win_w, win_h), x, y) {
                    GameV { screen: Screen::Menu, ..reset_player_spec(g) }
                } else {
                    g
                }
            },
            Screen::Victory => {
                if in_region(victory_button_spec(win_w, win_h), x, y) {
                    GameV { screen: Screen::Menu, ..reset_player_spec(g) }
                } else {
                    g
                }
            },
        }
    }
}

impl GameState {
    /// Feeds one pointer click into the screen state machine; only the left
    /// button acts.
    pub fn mouse_click(&mut self, left_button: bool, x: i64, y: i64, win_w: i64, win_h: i64)
        requires
            wf(old(self)@),
            0 <= win_w <= WIN_MAX,
            0 <= win_h <= WIN_MAX,
        ensures
            final(self)@ == click_spec(
                old(self)@,
                left_button,
                x as int,
                y as int,
                win_w as int,
                win_h as int,
            ),
            wf(final(self)@),
    {
        if !left_button {
            return ;
        }
        match self.screen {
            Screen::Menu => {
                let b = start_button(win_w, win_h);
                if region_hit(&b, x, y) {
                    self.reset_game();
                    self.screen = Screen::Playing;
                    proof {
                        lemma_reset_wf(old(self)@);
                    }
                }
            },
            Screen::Playing => {
                let b = quit_button(win_w);
                if region_hit(&b, x, y) {
                    self.screen = Screen::Menu;
                    self.reset_player();
                    proof {
                        lemma_reset_player_wf(old(self)@);
                        assert(self@ =~= GameV {
                            screen: Screen::Menu,
                            ..reset_player_spec(old(self)@)
                        });
                    }
                }
            },
            Screen::GameOver => {
                let restart = restart_button(win_w, win_h);
                let quit = gameover_quit_button(win_w, win_h);
                if region_hit(&restart, x, y) {
                    self.reset_game();
                    self.screen = Screen::Playing;
                    proof {
                        lemma_reset_wf(old(self)@);
                    }
                } else if region_hit(&quit, x, y) {
                    self.screen = Screen::Menu;
                    self.reset_player();
                    proof {
                        lemma_reset_player_wf(old(self)@);
                        assert(self@ =~= GameV {
                            screen: Screen::Menu,
                            ..reset_player_spec(old(self)@)
                        });
                    }
                }
            },
            Screen::Victory => {
                let b = victory_button(win_w, win_h);
                if region_hit(&b, x, y) {
                    self.screen = Screen::Menu;
                    self.reset_player();
                    proof {
                        lemma_reset_player_wf(old(self)@);
                        assert(self@ =~= GameV {
                            screen: Screen::Menu,
                            ..reset_player_spec(old(self)@)
                        });
                    }
                }
            },
        }
    }
}

} // verus!
