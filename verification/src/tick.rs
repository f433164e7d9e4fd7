//! The per-tick simulation: one call advances the world by one frame.
//!
//! A tick in play runs, in order: input mapping, gravity, horizontal
//! integration and resolution, vertical integration, the periodic coin
//! spawn, vertical resolution (which also triggers bonus blocks), viewport
//! clamping, the pipe-entry trigger, coin pickup, and the monster updates
//! with the defeat check. While the pipe-entry animation runs, the tick
//! instead only eases the player into the pipe. Every other screen mode is
//! inert.

use vstd::prelude::*;
use vstd::arithmetic::div_mod::{lemma_div_is_ordered, lemma_div_pos_is_pos};
use crate::entity::{coins_view, monsters_view, pos_view, wf_coin, wf_monster, wf_pos, Coin,
    CoinV, GridPos, Input, Monster, MonsterV, PlayerV, PosV, Screen, monster_box, player_box};
use crate::game::{coin_at, pos_in, wf, GameState, GameV};
use crate::geom::{overlaps, rect_intersect, rects_view, scaled, Rect, RectV};
use crate::level::{ground_tiles, ground_vec, lemma_ground_props, lemma_wf_tile_ok, tile_ok,
    wf_pipe, wf_tile};
use crate::physics::{clamp_step, gravity_step, input_step, monster_step, move_x_step,
    move_y_step, resolve_x_upto};
use crate::{COIN_SCORE, COIN_SIZE, DT_MAX, ENTER_LIMIT, JUMP_V, OFF_MIN, PIPE_DESCEND, PIPE_H,
    PIPE_TOL, PLAYER_H, PLAYER_W, SCALE, SPAWN_INTERVAL, TILE, VY_MAX, WIN_MAX};

verus! {

/// The grid cell a tile occupies: its pixel position divided by the tile
/// size, relative to the level's vertical offset.
pub open spec fn tile_grid_pos(t: RectV, off: int) -> PosV {
    PosV { col: t.x / (TILE as int), row: (t.y - off) / (TILE as int) }
}

/// The coin emitted over a tile: horizontally centered on it, just above
/// its top, carrying the tile's grid cell.
pub open spec fn coin_for_tile(t: RectV, off: int) -> CoinV {
    CoinV {
        rect: RectV {
            x: t.x + (TILE - COIN_SIZE) / 2,
            y: t.y - COIN_SIZE - 2 * SCALE,
            w: COIN_SIZE as int,
            h: COIN_SIZE as int,
        },
        pos: tile_grid_pos(t, off),
    }
}

/// The grid cell of a well-formed tile is on the map, and its coin is well
/// formed.
pub proof fn lemma_coin_for_tile_wf(t: RectV, off: int)
    requires
        wf_tile(t, off),
        OFF_MIN <= off <= WIN_MAX,
    ensures
        wf_pos(tile_grid_pos(t, off)),
        wf_coin(coin_for_tile(t, off)),
{
    lemma_div_pos_is_pos(t.x, TILE as int);
    lemma_div_is_ordered(t.x, (crate::COLS - 1) * TILE, TILE as int);
    assert((27 * 32000) / 32000 == 27);
    lemma_div_pos_is_pos(t.y - off, TILE as int);
    lemma_div_is_ordered(t.y - off, (crate::ROWS - 1) * TILE, TILE as int);
    assert((6 * 32000) / 32000 == 6);
}

/// Executable form of [`tile_grid_pos`].
pub fn grid_pos_of_tile(t: &Rect, off: i64) -> (p: GridPos)
    requires
        0 <= t@.x <= crate::COORD_LIM,
        0 <= t@.y - off <= crate::COORD_LIM,
    ensures
        p@ == tile_grid_pos(t@, off as int),
{
    let col: i64 = ((t.x as u64) / (TILE as u64)) as i64;
    let row: i64 = (((t.y - off) as u64) / (TILE as u64)) as i64;
    GridPos { col, row }
}

/// Whether a live coin already occupies the grid cell; grid coordinates,
/// not pixel positions, are a coin's identity.
pub fn coin_exists(coins: &Vec<Coin>, pos: GridPos) -> (b: bool)
    ensures
        b == coin_at(coins_view(coins@), pos@),
{
    let mut i: usize = 0;
    while i < coins.len()
        invariant
            i <= coins.len(),
            forall|k: int| 0 <= k < i ==> coins_view(coins@)[k].pos != pos@,
        decreases coins.len() - i,
    {
        if coins[i].pos == pos {
            proof {
                assert(coins_view(coins@)[i as int].pos == pos@);
            }
            return true;
        }
        i += 1;
    }
    false
}

/// Whether the grid cell occurs in the list.
pub fn pos_contained(list: &Vec<GridPos>, pos: GridPos) -> (b: bool)
    ensures
        b == pos_in(pos_view(list@), pos@),
{
    let mut i: usize = 0;
    while i < list.len()
        invariant
            i <= list.len(),
            forall|k: int| 0 <= k < i ==> pos_view(list@)[k] != pos@,
        decreases list.len() - i,
    {
        if list[i] == pos {
            proof {
                assert(pos_view(list@)[i as int] == pos@);
            }
            return true;
        }
        i += 1;
    }
    false
}

/// The list with every occurrence of `pos` removed, order kept.
pub open spec fn remove_pos_upto(s: Seq<PosV>, pos: PosV, n: int) -> Seq<PosV>
    decreases n,
{
    if n <= 0 {
        Seq::empty()
    } else {
        let pre = remove_pos_upto(s, pos, n - 1);
        if s[n - 1] == pos {
            pre
        } else {
            pre.push(s[n - 1])
        }
    }
}

/// [`remove_pos_upto`] over the whole list.
pub open spec fn remove_pos(s: Seq<PosV>, pos: PosV) -> Seq<PosV> {
    remove_pos_upto(s, pos, s.len() as int)
}

/// Removal keeps only elements of the original list, and none equal to the
/// removed cell.
pub proof fn lemma_remove_pos_props(s: Seq<PosV>, pos: PosV, n: int)
    requires
        n <= s.len(),
    ensures
        forall|k: int|
            0 <= k < remove_pos_upto(s, pos, n).len() ==> pos_in(
                s,
                #[trigger] remove_pos_upto(s, pos, n)[k],
            ) && remove_pos_upto(s, pos, n)[k] != pos,
    decreases n,
{
    if n > 0 {
        lemma_remove_pos_props(s, pos, n - 1);
        let r = remove_pos_upto(s, pos, n);
        let pre = remove_pos_upto(s, pos, n - 1);
        assert forall|k: int| 0 <= k < r.len() implies pos_in(s, r[k]) && r[k] != pos by {
            if k < pre.len() {
                assert(r[k] == pre[k]);
            } else {
                assert(r[k] == s[n - 1]);
                assert(0 <= n - 1 < s.len() && s[n - 1] == s[n - 1]);
            }
        }
    }
}

/// The periodic coin spawn: the timer accumulates the tick's delta; when a
/// full period has passed it rolls over and one coin is offered above the
/// middle tile of the current ground row, unless that cell already holds a
/// coin or its coin was already consumed this game.
pub open spec fn spawn_phase(g: GameV, dt: int, win_h: int) -> GameV {
    let t1 = g.spawn_timer + dt;
    if t1 >= g.spawn_interval {
        let ground = ground_tiles(g.tiles, win_h - TILE - SCALE);
        if ground.len() > 0 {
            let t = ground[ground.len() as int / 2];
            let pos = tile_grid_pos(t, g.offset_y);
            if !coin_at(g.coins, pos) && !pos_in(g.consumed, pos) {
                GameV { spawn_timer: 0, coins: g.coins.push(coin_for_tile(t, g.offset_y)), ..g }
            } else {
                GameV { spawn_timer: 0, ..g }
            }
        } else {
            GameV { spawn_timer: 0, ..g }
        }
    } else {
        GameV { spawn_timer: t1, ..g }
    }
}

/// The spawn phase keeps the coin invariants: every coin well formed, coin
/// cells pairwise distinct and disjoint from the consumed set, which it
/// leaves untouched.
pub proof fn lemma_spawn_phase_props(g: GameV, dt: int, win_h: int)
    requires
        OFF_MIN <= g.offset_y <= WIN_MAX,
        forall|i: int| 0 <= i < g.tiles.len() ==> wf_tile(#[trigger] g.tiles[i], g.offset_y),
        forall|i: int| 0 <= i < g.coins.len() ==> wf_coin(#[trigger] g.coins[i]),
        forall|i: int, j: int|
            0 <= i < j < g.coins.len() ==> (#[trigger] g.coins[i].pos) != (#[trigger] g.coins[j].pos),
        forall|i: int| 0 <= i < g.coins.len() ==> !pos_in(g.consumed, (#[trigger] g.coins[i]).pos),
    ensures
        ({
            let r = spawn_phase(g, dt, win_h);
            &&& r.consumed == g.consumed
            &&& forall|i: int| 0 <= i < r.coins.len() ==> wf_coin(#[trigger] r.coins[i])
            &&& forall|i: int, j: int|
                0 <= i < j < r.coins.len() ==> (#[trigger] r.coins[i].pos)
                    != (#[trigger] r.coins[j].pos)
            &&& forall|i: int|
                0 <= i < r.coins.len() ==> !pos_in(g.consumed, (#[trigger] r.coins[i]).pos)
        }),
{
    let r = spawn_phase(g, dt, win_h);
    let cutoff = win_h - TILE - SCALE;
    let ground = ground_tiles(g.tiles, cutoff);
    lemma_ground_props(g.tiles, cutoff, g.tiles.len() as int, g.offset_y);
    if g.spawn_timer + dt >= g.spawn_interval && ground.len() > 0 {
        let t = ground[ground.len() as int / 2];
        let pos = tile_grid_pos(t, g.offset_y);
        assert(0 <= ground.len() as int / 2 < ground.len());
        assert(wf_tile(t, g.offset_y));
        lemma_coin_for_tile_wf(t, g.offset_y);
        if !coin_at(g.coins, pos) && !pos_in(g.consumed, pos) {
            let c2 = g.coins.push(coin_for_tile(t, g.offset_y));
            assert forall|i: int, j: int|
                0 <= i < j < c2.len() implies (#[trigger] c2[i].pos)
                != (#[trigger] c2[j].pos) by {
                if j == c2.len() - 1 {
                    if c2[i].pos == pos {
                        assert(coin_at(g.coins, pos));
                    }
                }
            }
        }
    }
    assert forall|i: int| 0 <= i < r.coins.len() implies wf_coin(#[trigger] r.coins[i]) by {
        if i < g.coins.len() {
            assert(r.coins[i] == g.coins[i]);
        }
    }
    assert forall|i: int| 0 <= i < r.coins.len() implies !pos_in(
        g.consumed,
        (#[trigger] r.coins[i]).pos,
    ) by {
        if i < g.coins.len() {
            assert(r.coins[i] == g.coins[i]);
        }
    }
}

/// The parts of the state the vertical resolution can touch.
#[verifier::ext_equal]
pub ghost struct YState {
    pub player: PlayerV,
    pub coins: Seq<CoinV>,
    pub specials: Seq<PosV>,
}

/// Vertical resolution against one tile. A falling player lands: feet to
/// the tile top, fall stopped, grounded. A rising player bumps its head:
/// clamped below the tile, rise stopped; a special block struck this way
/// emits one coin above itself (same dedup rule as the timer spawn) and
/// becomes an ordinary tile.
pub open spec fn resolve_y_once(st: YState, t: RectV, consumed: Seq<PosV>, off: int) -> YState {
    if overlaps(player_box(st.player), t) {
        if st.player.vy > 0 {
            YState {
                player: PlayerV { y: t.y - st.player.h, vy: 0, on_ground: true, ..st.player },
                ..st
            }
        } else if st.player.vy < 0 {
            let pos = tile_grid_pos(t, off);
            let p2 = PlayerV { y: t.y + t.h, vy: 0, ..st.player };
            if pos_in(st.specials, pos) {
                let coins2 = if !coin_at(st.coins, pos) && !pos_in(consumed, pos) {
                    st.coins.push(coin_for_tile(t, off))
                } else {
                    st.coins
                };
                YState { player: p2, coins: coins2, specials: remove_pos(st.specials, pos) }
            } else {
                YState { player: p2, ..st }
            }
        } else {
            st
        }
    } else {
        st
    }
}

/// Vertical resolution against the first `n` tiles, one at a time in parse
/// order, each overlap fully resolved before the next tile is checked.
pub open spec fn resolve_y_upto(
    st: YState,
    tiles: Seq<RectV>,
    consumed: Seq<PosV>,
    off: int,
    n: int,
) -> YState
    decreases n,
{
    if n <= 0 {
        st
    } else {
        resolve_y_once(resolve_y_upto(st, tiles, consumed, off, n - 1), tiles[n - 1], consumed, off)
    }
}

/// The vertical-resolution phase: the grounded flag is rebuilt from scratch
/// each tick, then every tile is resolved in order.
pub open spec fn resolve_y_phase(g: GameV) -> GameV {
    let st0 = YState {
        player: PlayerV { on_ground: false, ..g.player },
        coins: g.coins,
        specials: g.specials,
    };
    let st1 = resolve_y_upto(st0, g.tiles, g.consumed, g.offset_y, g.tiles.len() as int);
    GameV { player: st1.player, coins: st1.coins, specials: st1.specials, ..g }
}

/// What vertical resolution can do: it never touches `x`, `vx` or the
/// hitbox; `y` is unchanged or tile-derived; `vy` is unchanged or zeroed;
/// the coin list keeps its well-formedness, pairwise-distinct cells and
/// disjointness from the consumed set; specials only lose elements.
pub proof fn lemma_resolve_y_props(
    st: YState,
    tiles: Seq<RectV>,
    consumed: Seq<PosV>,
    off: int,
    n: int,
)
    requires
        n <= tiles.len(),
        forall|i: int| 0 <= i < tiles.len() ==> wf_tile(#[trigger] tiles[i], off),
        OFF_MIN <= off <= WIN_MAX,
        forall|i: int| 0 <= i < st.coins.len() ==> wf_coin(#[trigger] st.coins[i]),
        forall|i: int, j: int|
            0 <= i < j < st.coins.len() ==> (#[trigger] st.coins[i].pos)
                != (#[trigger] st.coins[j].pos),
        forall|i: int| 0 <= i < st.coins.len() ==> !pos_in(consumed, (#[trigger] st.coins[i]).pos),
        forall|i: int| 0 <= i < st.specials.len() ==> wf_pos(#[trigger] st.specials[i]),
    ensures
        ({
            let r = resolve_y_upto(st, tiles, consumed, off, n);
            &&& r.player.x == st.player.x
            &&& r.player.vx == st.player.vx
            &&& r.player.w == st.player.w
            &&& r.player.h == st.player.h
            &&& (r.player.y == st.player.y || OFF_MIN - st.player.h <= r.player.y <= WIN_MAX
                + (crate::ROWS as int) * TILE)
            &&& (r.player.vy == st.player.vy || r.player.vy == 0)
            &&& forall|i: int| 0 <= i < r.coins.len() ==> wf_coin(#[trigger] r.coins[i])
            &&& forall|i: int, j: int|
                0 <= i < j < r.coins.len() ==> (#[trigger] r.coins[i].pos)
                    != (#[trigger] r.coins[j].pos)
            &&& forall|i: int|
                0 <= i < r.coins.len() ==> !pos_in(consumed, (#[trigger] r.coins[i]).pos)
            &&& forall|i: int| 0 <= i < r.specials.len() ==> wf_pos(#[trigger] r.specials[i])
        }),
    decreases n,
{
    if n > 0 {
        lemma_resolve_y_props(st, tiles, consumed, off, n - 1);
        let pre = resolve_y_upto(st, tiles, consumed, off, n - 1);
        let t = tiles[n - 1];
        let r = resolve_y_once(pre, t, consumed, off);
        assert(wf_tile(t, off));
        if overlaps(player_box(pre.player), t) && pre.player.vy < 0 {
            let pos = tile_grid_pos(t, off);
            if pos_in(pre.specials, pos) {
                lemma_coin_for_tile_wf(t, off);
                lemma_remove_pos_props(pre.specials, pos, pre.specials.len() as int);
                assert forall|i: int| 0 <= i < r.specials.len() implies wf_pos(
                    #[trigger] r.specials[i],
                ) by {
                    assert(pos_in(pre.specials, r.specials[i]));
                    let k = choose|k: int|
                        0 <= k < pre.specials.len() && pre.specials[k] == r.specials[i];
                    assert(wf_pos(pre.specials[k]));
                }
                if !coin_at(pre.coins, pos) && !pos_in(consumed, pos) {
                    let c2 = pre.coins.push(coin_for_tile(t, off));
                    assert forall|i: int, j: int|
                        0 <= i < j < c2.len() implies (#[trigger] c2[i].pos)
                        != (#[trigger] c2[j].pos) by {
                        if j == c2.len() - 1 {
                            assert(c2[i] == pre.coins[i]);
                            if c2[i].pos == pos {
                                assert(coin_at(pre.coins, pos));
                            }
                        } else {
                            assert(c2[i] == pre.coins[i] && c2[j] == pre.coins[j]);
                        }
                    }
                }
            }
        }
    }
}

/// Splits the live coins by overlap with the player's hitbox, scanning
/// from index `i`: kept coins in order, and the grid cells of the picked
/// ones in order.
pub open spec fn picked_from(pl: RectV, coins: Seq<CoinV>, i: int) -> (Seq<CoinV>, Seq<PosV>)
    decreases coins.len() - i,
{
    if i < 0 || i >= coins.len() {
        (Seq::empty(), Seq::empty())
    } else {
        let rest = picked_from(pl, coins, i + 1);
        if overlaps(pl, coins[i].rect) {
            (rest.0, seq![coins[i].pos] + rest.1)
        } else {
            (seq![coins[i]] + rest.0, rest.1)
        }
    }
}

/// Kept coins and picked cells both come from the scanned coins, split
/// without overlap: with pairwise-distinct coin cells, the kept coins, the
/// picked cells, and the two against each other are all distinct, and the
/// counts add up.
pub proof fn lemma_picked_props(pl: RectV, coins: Seq<CoinV>, i: int)
    requires
        0 <= i <= coins.len(),
        forall|a: int, b: int|
            0 <= a < b < coins.len() ==> (#[trigger] coins[a].pos) != (#[trigger] coins[b].pos),
    ensures
        ({
            let r = picked_from(pl, coins, i);
            &&& r.0.len() + r.1.len() == coins.len() - i
            &&& forall|a: int|
                0 <= a < r.0.len() ==> exists|k: int|
                    i <= k < coins.len() && (#[trigger] r.0[a]) == coins[k]
            &&& forall|a: int|
                0 <= a < r.1.len() ==> exists|k: int|
                    i <= k < coins.len() && (#[trigger] r.1[a]) == coins[k].pos
            &&& forall|a: int, b: int|
                0 <= a < b < r.0.len() ==> (#[trigger] r.0[a].pos) != (#[trigger] r.0[b].pos)
            &&& forall|a: int, b: int|
                0 <= a < b < r.1.len() ==> (#[trigger] r.1[a]) != (#[trigger] r.1[b])
            &&& forall|a: int, b: int|
                0 <= a < r.0.len() && 0 <= b < r.1.len() ==> (#[trigger] r.0[a].pos)
                    != (#[trigger] r.1[b])
        }),
    decreases coins.len() - i,
{
    if i < coins.len() {
        lemma_picked_props(pl, coins, i + 1);
        let rest = picked_from(pl, coins, i + 1);
        let r = picked_from(pl, coins, i);
        let c = coins[i];
        assert forall|a: int| 0 <= a < rest.0.len() implies (#[trigger] rest.0[a].pos)
            != c.pos by {
            let k = choose|k: int| i + 1 <= k < coins.len() && rest.0[a] == coins[k];
            assert(coins[i].pos != coins[k].pos);
        }
        assert forall|a: int| 0 <= a < rest.1.len() implies (#[trigger] rest.1[a]) != c.pos by {
            let k = choose|k: int| i + 1 <= k < coins.len() && rest.1[a] == coins[k].pos;
            assert(coins[i].pos != coins[k].pos);
        }
        if overlaps(pl, c.rect) {
            assert(r.0 == rest.0 && r.1 == seq![c.pos] + rest.1);
            assert forall|a: int| 0 <= a < r.1.len() implies exists|k: int|
                i <= k < coins.len() && (#[trigger] r.1[a]) == coins[k].pos by {
                if a == 0 {
                    assert(r.1[a] == coins[i].pos);
                } else {
                    assert(r.1[a] == rest.1[a - 1]);
                    let k = choose|k: int| i + 1 <= k < coins.len() && rest.1[a - 1] == coins[k].pos;
                    assert(r.1[a] == coins[k].pos);
                }
            }
            assert forall|a: int| 0 <= a < r.0.len() implies exists|k: int|
                i <= k < coins.len() && (#[trigger] r.0[a]) == coins[k] by {
                let k = choose|k: int| i + 1 <= k < coins.len() && rest.0[a] == coins[k];
                assert(r.0[a] == coins[k]);
            }
        } else {
            assert(r.0 == seq![c] + rest.0 && r.1 == rest.1);
            assert forall|a: int| 0 <= a < r.0.len() implies exists|k: int|
                i <= k < coins.len() && (#[trigger] r.0[a]) == coins[k] by {
                if a == 0 {
                    assert(r.0[a] == coins[i]);
                } else {
                    assert(r.0[a] == rest.0[a - 1]);
                    let k = choose|k: int| i + 1 <= k < coins.len() && rest.0[a - 1] == coins[k];
                    assert(r.0[a] == coins[k]);
                }
            }
            assert forall|a: int| 0 <= a < r.1.len() implies exists|k: int|
                i <= k < coins.len() && (#[trigger] r.1[a]) == coins[k].pos by {
                let k = choose|k: int| i + 1 <= k < coins.len() && rest.1[a] == coins[k].pos;
                assert(r.1[a] == coins[k].pos);
            }
        }
    }
}

/// The pickup phase: every coin overlapping the player is collected; each
/// one scores, closes its grid cell for respawns, and arms the spawn timer
/// for a fresh roll next period.
pub open spec fn pickup_phase(g: GameV) -> GameV {
    let r = picked_from(player_box(g.player), g.coins, 0);
    GameV {
        coins: r.0,
        consumed: g.consumed + r.1,
        score: g.score + COIN_SCORE * r.1.len(),
        spawn_timer: if r.1.len() > 0 {
            g.spawn_interval
        } else {
            g.spawn_timer
        },
        ..g
    }
}

/// The monster updates from index `i` on: each monster in turn patrols and
/// follows the ground, then touching the player ends the round. After a
/// defeat is detected no further monster is updated.
pub open spec fn monsters_from(
    pl: PlayerV,
    tiles: Seq<RectV>,
    ms: Seq<MonsterV>,
    dt: int,
    i: int,
    screen: Screen,
) -> (Seq<MonsterV>, Screen)
    decreases ms.len() - i,
{
    if i < 0 || i >= ms.len() {
        (Seq::empty(), screen)
    } else if screen != Screen::Playing {
        (ms.subrange(i, ms.len() as int), screen)
    } else {
        let m2 = monster_step(ms[i], tiles, dt);
        let s2: Screen = if overlaps(player_box(pl), monster_box(m2)) {
            Screen::GameOver
        } else {
            screen
        };
        let rest = monsters_from(pl, tiles, ms, dt, i + 1, s2);
        (seq![m2] + rest.0, rest.1)
    }
}

/// The monster phase keeps every monster well formed and can only keep the
/// screen or end the round.
pub proof fn lemma_monsters_from_props(
    pl: PlayerV,
    tiles: Seq<RectV>,
    ms: Seq<MonsterV>,
    dt: int,
    i: int,
    screen: Screen,
)
    requires
        0 <= i,
        0 <= dt <= DT_MAX,
        forall|k: int| 0 <= k < tiles.len() ==> tile_ok(#[trigger] tiles[k]),
        forall|k: int| 0 <= k < ms.len() ==> wf_monster(#[trigger] ms[k]),
    ensures
        ({
            let r = monsters_from(pl, tiles, ms, dt, i, screen);
            &&& forall|k: int| 0 <= k < r.0.len() ==> wf_monster(#[trigger] r.0[k])
            &&& (r.1 == screen || r.1 == Screen::GameOver)
        }),
    decreases ms.len() - i,
{
    if i < ms.len() && screen == Screen::Playing {
        let m2 = monster_step(ms[i], tiles, dt);
        crate::physics::lemma_monster_step_wf(ms[i], tiles, dt);
        let s2: Screen = if overlaps(player_box(pl), monster_box(m2)) {
            Screen::GameOver
        } else {
            screen
        };
        lemma_monsters_from_props(pl, tiles, ms, dt, i + 1, s2);
        let rest = monsters_from(pl, tiles, ms, dt, i + 1, s2);
        let r = monsters_from(pl, tiles, ms, dt, i, screen);
        assert forall|k: int| 0 <= k < r.0.len() implies wf_monster(#[trigger] r.0[k]) by {
            if k == 0 {
                assert(r.0[k] == m2);
            } else {
                assert(r.0[k] == rest.0[k - 1]);
            }
        }
    } else if i < ms.len() {
        let r = monsters_from(pl, tiles, ms, dt, i, screen);
        assert forall|k: int| 0 <= k < r.0.len() implies wf_monster(#[trigger] r.0[k]) by {
            assert(r.0[k] == ms[i + k]);
        }
    }
}

/// The monster phase over the whole list.
pub open spec fn monsters_phase(g: GameV, dt: int) -> GameV {
    let r = monsters_from(g.player, g.tiles, g.monsters, dt, 0, g.screen);
    GameV { monsters: r.0, screen: r.1, ..g }
}

/// The pipe-entry trigger: a grounded player whose horizontal center is
/// over the pipe and whose feet are within the tolerance of the pipe's top
/// starts the scripted entry, losing horizontal control.
pub open spec fn trigger_phase(g: GameV) -> GameV {
    match g.pipe {
        Some(pipe) => {
            let center = g.player.x + g.player.w / 2;
            let bottom = g.player.y + g.player.h;
            if pipe.x <= center <= pipe.x + pipe.w && -PIPE_TOL <= bottom - pipe.y <= PIPE_TOL
                && g.player.on_ground {
                GameV {
                    entering_pipe: true,
                    enter_timer: 0,
                    player: PlayerV { vx: 0, ..g.player },
                    ..g
                }
            } else {
                g
            }
        },
        None => g,
    }
}

/// One tick of the scripted pipe entry: the player eases toward the pipe's
/// horizontal center by an exponential-approach blend and sinks at a fixed
/// rate; the animation ends in victory when its time is up or the player
/// is halfway into the pipe.
pub open spec fn entry_phase(g: GameV, dt: int) -> GameV {
    match g.pipe {
        Some(pipe) => {
            let target = pipe.x + pipe.w / 2 - g.player.w / 2;
            let x2 = g.player.x + scaled(target - g.player.x, 100 + 3 * dt);
            let y2 = g.player.y + scaled(PIPE_DESCEND as int, dt);
            let t2 = g.enter_timer + dt;
            let scr: Screen = if t2 > ENTER_LIMIT || y2 > pipe.y + pipe.h / 2 {
                Screen::Victory
            } else {
                g.screen
            };
            GameV {
                player: PlayerV { x: x2, y: y2, ..g.player },
                enter_timer: t2,
                screen: scr,
                ..g
            }
        },
        None => g,
    }
}

/// One full simulation tick for a viewport and a time delta in
/// milliseconds. Only play runs; an active pipe entry replaces the normal
/// pipeline; an entry flag without a pipe is dropped and the tick runs
/// normally.
pub open spec fn tick_spec(g: GameV, inp: Input, dt: int, win_w: int, win_h: int) -> GameV {
    if g.screen != Screen::Playing {
        g
    } else if g.entering_pipe && g.pipe is Some {
        entry_phase(g, dt)
    } else {
        let g0 = GameV { entering_pipe: false, ..g };
        let g1 = GameV { player: input_step(g0.player, inp), ..g0 };
        let g2 = GameV { player: gravity_step(g1.player, dt), ..g1 };
        let g3 = GameV { player: move_x_step(g2.player, dt), ..g2 };
        let g4 = GameV {
            player: resolve_x_upto(g3.player, g3.tiles, g3.tiles.len() as int),
            ..g3
        };
        let g5 = GameV { player: move_y_step(g4.player, dt), ..g4 };
        let g6 = spawn_phase(g5, dt, win_h);
        let g7 = resolve_y_phase(g6);
        let g8 = GameV { player: clamp_step(g7.player, win_w, win_h), ..g7 };
        let g9 = trigger_phase(g8);
        let g10 = pickup_phase(g9);
        monsters_phase(g10, dt)
    }
}

/// Executable form of [`remove_pos`].
pub fn without_pos(list: &Vec<GridPos>, pos: GridPos) -> (r: Vec<GridPos>)
    ensures
        pos_view(r@) == remove_pos(pos_view(list@), pos@),
{
    let ghost lv = pos_view(list@);
    let mut r: Vec<GridPos> = Vec::new();
    let mut i: usize = 0;
    while i < list.len()
        invariant
            i <= list.len(),
            lv == pos_view(list@),
            pos_view(r@) == remove_pos_upto(lv, pos@, i as int),
        decreases list.len() - i,
    {
        if !(list[i] == pos) {
            r.push(list[i]);
        }
        proof {
            assert(pos_view(r@) =~= remove_pos_upto(lv, pos@, i + 1));
        }
        i += 1;
    }
    r
}

impl GameState {
    /// Runs the periodic coin spawn for one tick; see [`spawn_phase`].
    pub fn spawn_step(&mut self, dt: i64, win_h: i64)
        requires
            0 <= dt <= DT_MAX,
            0 <= win_h <= WIN_MAX,
            OFF_MIN <= old(self)@.offset_y <= WIN_MAX,
            0 <= old(self)@.spawn_timer <= old(self)@.spawn_interval,
            old(self)@.spawn_interval == SPAWN_INTERVAL,
            forall|i: int|
                0 <= i < old(self)@.tiles.len() ==> wf_tile(
                    #[trigger] old(self)@.tiles[i],
                    old(self)@.offset_y,
                ),
            forall|i: int| 0 <= i < old(self)@.coins.len() ==> wf_coin(#[trigger] old(self)@.coins[i]),
            forall|i: int, j: int|
                0 <= i < j < old(self)@.coins.len() ==> (#[trigger] old(self)@.coins[i].pos)
                    != (#[trigger] old(self)@.coins[j].pos),
            forall|i: int|
                0 <= i < old(self)@.coins.len() ==> !pos_in(
                    old(self)@.consumed,
                    (#[trigger] old(self)@.coins[i]).pos,
                ),
        ensures
            final(self)@ == spawn_phase(old(self)@, dt as int, win_h as int),
            forall|i: int| 0 <= i < final(self)@.coins.len() ==> wf_coin(#[trigger] final(self)@.coins[i]),
            forall|i: int, j: int|
                0 <= i < j < final(self)@.coins.len() ==> (#[trigger] final(self)@.coins[i].pos)
                    != (#[trigger] final(self)@.coins[j].pos),
            forall|i: int|
                0 <= i < final(self)@.coins.len() ==> !pos_in(
                    final(self)@.consumed,
                    (#[trigger] final(self)@.coins[i]).pos,
                ),
            0 <= final(self)@.spawn_timer <= final(self)@.spawn_interval,
    {
        let ghost g = old(self)@;
        let t1: i64 = self.spawn_timer + dt;
        if t1 >= self.spawn_interval {
            self.spawn_timer = 0;
            let cutoff: i64 = win_h - TILE - SCALE;
            let ground = ground_vec(&self.tiles, cutoff);
            let ghost gv = ground_tiles(g.tiles, cutoff as int);
            proof {
                lemma_ground_props(g.tiles, cutoff as int, g.tiles.len() as int, g.offset_y);
            }
            if ground.len() > 0 {
                let idx: usize = ground.len() / 2;
                proof {
                    assert(idx < ground.len()) by (nonlinear_arith)
                        requires idx == ground@.len() / 2, ground@.len() >= 1;
                    assert(wf_tile(gv[idx as int], g.offset_y));
                }
                let t = ground[idx];
                let pos = grid_pos_of_tile(&t, self.offset_y);
                let have_coin = coin_exists(&self.coins, pos);
                let have_consumed = pos_contained(&self.consumed, pos);
                if !have_coin && !have_consumed {
                    let ghost before = coins_view(self.coins@);
                    let c = Coin {
                        rect: Rect { x: t.x + 8_000, y: t.y - 18_000, w: COIN_SIZE, h: COIN_SIZE },
                        pos,
                    };
                    proof {
                        assert(c@ == coin_for_tile(gv[idx as int], g.offset_y));
                        lemma_coin_for_tile_wf(gv[idx as int], g.offset_y);
                    }
                    self.coins.push(c);
                    proof {
                        assert(coins_view(self.coins@) =~= before.push(c@));
                        assert forall|i: int, j: int|
                            0 <= i < j < coins_view(self.coins@).len() implies (
                        #[trigger] coins_view(self.coins@)[i].pos) != (#[trigger] coins_view(
                            self.coins@,
                        )[j].pos) by {
                            if j == coins_view(self.coins@).len() - 1 {
                                if before[i].pos == c@.pos {
                                    assert(coin_at(before, c@.pos));
                                }
                            }
                        }
                    }
                }
            }
        } else {
            self.spawn_timer = t1;
        }
        proof {
            assert(self@ =~= spawn_phase(g, dt as int, win_h as int));
        }
    }

    /// Runs the vertical resolution for one tick; see [`resolve_y_phase`].
    pub fn resolve_vertical(&mut self)
        requires
            OFF_MIN <= old(self)@.offset_y <= WIN_MAX,
            forall|i: int|
                0 <= i < old(self)@.tiles.len() ==> wf_tile(
                    #[trigger] old(self)@.tiles[i],
                    old(self)@.offset_y,
                ),
            forall|i: int| 0 <= i < old(self)@.coins.len() ==> wf_coin(#[trigger] old(self)@.coins[i]),
            forall|i: int, j: int|
                0 <= i < j < old(self)@.coins.len() ==> (#[trigger] old(self)@.coins[i].pos)
                    != (#[trigger] old(self)@.coins[j].pos),
            forall|i: int|
                0 <= i < old(self)@.coins.len() ==> !pos_in(
                    old(self)@.consumed,
                    (#[trigger] old(self)@.coins[i]).pos,
                ),
            forall|i: int|
                0 <= i < old(self)@.specials.len() ==> wf_pos(#[trigger] old(self)@.specials[i]),
            old(self)@.player.w == PLAYER_W,
            old(self)@.player.h == PLAYER_H,
            -crate::physics::MID_LIM <= old(self)@.player.x <= crate::physics::MID_LIM,
            -crate::physics::MID_LIM <= old(self)@.player.y <= crate::physics::MID_LIM,
            JUMP_V <= old(self)@.player.vy <= VY_MAX,
        ensures
            final(self)@ == resolve_y_phase(old(self)@),
            forall|i: int| 0 <= i < final(self)@.coins.len() ==> wf_coin(#[trigger] final(self)@.coins[i]),
            forall|i: int, j: int|
                0 <= i < j < final(self)@.coins.len() ==> (#[trigger] final(self)@.coins[i].pos)
                    != (#[trigger] final(self)@.coins[j].pos),
            forall|i: int|
                0 <= i < final(self)@.coins.len() ==> !pos_in(
                    final(self)@.consumed,
                    (#[trigger] final(self)@.coins[i]).pos,
                ),
            forall|i: int|
                0 <= i < final(self)@.specials.len() ==> wf_pos(#[trigger] final(self)@.specials[i]),
            final(self)@.player.x == old(self)@.player.x,
            final(self)@.player.vx == old(self)@.player.vx,
            final(self)@.player.w == PLAYER_W,
            final(self)@.player.h == PLAYER_H,
            -crate::physics::MID_LIM <= final(self)@.player.y <= crate::physics::MID_LIM,
            (final(self)@.player.vy == old(self)@.player.vy || final(self)@.player.vy == 0),
    {
        let ghost g = old(self)@;
        self.player.on_ground = false;
        let ghost st0 = YState {
            player: self@.player,
            coins: g.coins,
            specials: g.specials,
        };
        let mut i: usize = 0;
        while i < self.tiles.len()
            invariant
                i <= self.tiles.len(),
                rects_view(self.tiles@) == g.tiles,
                pos_view(self.consumed@) == g.consumed,
                self.offset_y as int == g.offset_y,
                self@.monsters == g.monsters,
                self@.score == g.score,
                self@.screen == g.screen,
                self@.pipe == g.pipe,
                self@.spawn_timer == g.spawn_timer,
                self@.spawn_interval == g.spawn_interval,
                self@.entering_pipe == g.entering_pipe,
                self@.enter_timer == g.enter_timer,
                OFF_MIN <= g.offset_y <= WIN_MAX,
                forall|k: int| 0 <= k < g.tiles.len() ==> wf_tile(#[trigger] g.tiles[k], g.offset_y),
                forall|k: int| 0 <= k < st0.coins.len() ==> wf_coin(#[trigger] st0.coins[k]),
                forall|k: int, l: int|
                    0 <= k < l < st0.coins.len() ==> (#[trigger] st0.coins[k].pos)
                        != (#[trigger] st0.coins[l].pos),
                forall|k: int|
                    0 <= k < st0.coins.len() ==> !pos_in(g.consumed, (#[trigger] st0.coins[k]).pos),
                forall|k: int| 0 <= k < st0.specials.len() ==> wf_pos(#[trigger] st0.specials[k]),
                st0.player.w == PLAYER_W,
                st0.player.h == PLAYER_H,
                -crate::physics::MID_LIM <= st0.player.x <= crate::physics::MID_LIM,
                -crate::physics::MID_LIM <= st0.player.y <= crate::physics::MID_LIM,
                JUMP_V <= st0.player.vy <= VY_MAX,
                (YState {
                    player: self@.player,
                    coins: self@.coins,
                    specials: self@.specials,
                }) == resolve_y_upto(st0, g.tiles, g.consumed, g.offset_y, i as int),
            decreases self.tiles.len() - i,
        {
            proof {
                lemma_resolve_y_props(st0, g.tiles, g.consumed, g.offset_y, i as int);
                assert(wf_tile(g.tiles[i as int], g.offset_y));
            }
            let t = self.tiles[i];
            let prect = self.player.rect();
            if rect_intersect(&prect, &t) {
                if self.player.vy > 0 {
                    self.player.y = t.y - self.player.h;
                    self.player.vy = 0;
                    self.player.on_ground = true;
                } else if self.player.vy < 0 {
                    self.player.y = t.y + t.h;
                    let pos = grid_pos_of_tile(&t, self.offset_y);
                    if pos_contained(&self.specials, pos) {
                        let have_coin = coin_exists(&self.coins, pos);
                        let have_consumed = pos_contained(&self.consumed, pos);
                        if !have_coin && !have_consumed {
                            let c = Coin {
                                rect: Rect {
                                    x: t.x + 8_000,
                                    y: t.y - 18_000,
                                    w: COIN_SIZE,
                                    h: COIN_SIZE,
                                },
                                pos,
                            };
                            proof {
                                assert(c@ == coin_for_tile(g.tiles[i as int], g.offset_y));
                            }
                            self.coins.push(c);
                        }
                        let ns = without_pos(&self.specials, pos);
                        self.specials = ns;
                    }
                    self.player.vy = 0;
                }
            }
            proof {
                assert((YState {
                    player: self@.player,
                    coins: self@.coins,
                    specials: self@.specials,
                }) =~= resolve_y_upto(st0, g.tiles, g.consumed, g.offset_y, i + 1));
            }
            i += 1;
        }
        proof {
            lemma_resolve_y_props(
                st0,
                g.tiles,
                g.consumed,
                g.offset_y,
                g.tiles.len() as int,
            );
            assert(st0 =~= (YState {
                player: PlayerV { on_ground: false, ..g.player },
                coins: g.coins,
                specials: g.specials,
            }));
            assert(self@ =~= resolve_y_phase(g));
        }
    }

    /// Checks the pipe-entry trigger for one tick; see [`trigger_phase`].
    pub fn trigger_step(&mut self)
        requires
            old(self)@.entering_pipe == false,
            old(self)@.player.w == PLAYER_W,
            old(self)@.player.h == PLAYER_H,
            -crate::physics::MID_LIM <= old(self)@.player.x <= crate::physics::MID_LIM,
            -crate::physics::MID_LIM <= old(self)@.player.y <= crate::physics::MID_LIM,
            match old(self)@.pipe {
                Some(p) => wf_pipe(p, old(self)@.offset_y),
                None => true,
            },
            OFF_MIN <= old(self)@.offset_y <= WIN_MAX,
        ensures
            final(self)@ == trigger_phase(old(self)@),
            final(self)@.entering_pipe ==> final(self)@.enter_timer == 0 && match final(self)@.pipe {
                Some(p) => final(self)@.player.y <= p.y + PIPE_H / 2,
                None => false,
            },
            !final(self)@.entering_pipe ==> final(self)@ == old(self)@,
    {
        let ghost g = old(self)@;
        if let Some(pipe) = self.pipe {
            let center: i64 = self.player.x + 12_000;
            let bottom: i64 = self.player.y + self.player.h;
            let diff: i64 = bottom - pipe.y;
            if pipe.x <= center && center <= pipe.x + pipe.w && -PIPE_TOL <= diff && diff
                <= PIPE_TOL && self.player.on_ground {
                self.entering_pipe = true;
                self.enter_timer = 0;
                self.player.vx = 0;
            }
        }
        proof {
            assert(self@ =~= trigger_phase(g));
        }
    }

    /// Collects every coin the player overlaps; see [`pickup_phase`].
    pub fn pickup_step(&mut self)
        requires
            forall|i: int| 0 <= i < old(self)@.coins.len() ==> wf_coin(#[trigger] old(self)@.coins[i]),
            forall|i: int, j: int|
                0 <= i < j < old(self)@.coins.len() ==> (#[trigger] old(self)@.coins[i].pos)
                    != (#[trigger] old(self)@.coins[j].pos),
            forall|i: int|
                0 <= i < old(self)@.coins.len() ==> !pos_in(
                    old(self)@.consumed,
                    (#[trigger] old(self)@.coins[i]).pos,
                ),
            forall|i: int, j: int|
                0 <= i < j < old(self)@.consumed.len() ==> (#[trigger] old(self)@.consumed[i])
                    != (#[trigger] old(self)@.consumed[j]),
            forall|i: int| 0 <= i < old(self)@.consumed.len() ==> wf_pos(#[trigger] old(self)@.consumed[i]),
            old(self)@.score == COIN_SCORE * old(self)@.consumed.len(),
            0 <= old(self)@.spawn_timer <= old(self)@.spawn_interval,
            old(self)@.spawn_interval == SPAWN_INTERVAL,
            old(self)@.player.w == PLAYER_W,
            old(self)@.player.h == PLAYER_H,
            -crate::physics::MID_LIM <= old(self)@.player.x <= crate::physics::MID_LIM,
            -crate::physics::MID_LIM <= old(self)@.player.y <= crate::physics::MID_LIM,
        ensures
            final(self)@ == pickup_phase(old(self)@),
            forall|i: int| 0 <= i < final(self)@.coins.len() ==> wf_coin(#[trigger] final(self)@.coins[i]),
            forall|i: int, j: int|
                0 <= i < j < final(self)@.coins.len() ==> (#[trigger] final(self)@.coins[i].pos)
                    != (#[trigger] final(self)@.coins[j].pos),
            forall|i: int|
                0 <= i < final(self)@.coins.len() ==> !pos_in(
                    final(self)@.consumed,
                    (#[trigger] final(self)@.coins[i]).pos,
                ),
            forall|i: int, j: int|
                0 <= i < j < final(self)@.consumed.len() ==> (#[trigger] final(self)@.consumed[i])
                    != (#[trigger] final(self)@.consumed[j]),
            forall|i: int|
                0 <= i < final(self)@.consumed.len() ==> wf_pos(#[trigger] final(self)@.consumed[i]),
            final(self)@.score == COIN_SCORE * final(self)@.consumed.len(),
            0 <= final(self)@.spawn_timer <= final(self)@.spawn_interval,
    {
        let ghost g = old(self)@;
        let ghost pl = player_box(g.player);
        let ghost cv = g.coins;
        proof {
            lemma_picked_props(pl, cv, 0);
            let posseq = Seq::new(cv.len(), |k: int| cv[k].pos);
            assert forall|a: int, b: int|
                0 <= a < b < posseq.len() implies (#[trigger] posseq[a])
                != (#[trigger] posseq[b]) by {
                assert(cv[a].pos != cv[b].pos);
            }
            assert forall|a: int| 0 <= a < posseq.len() implies wf_pos(#[trigger] posseq[a]) by {
                assert(wf_coin(cv[a]));
            }
            crate::game::lemma_distinct_cells_len(posseq);
            crate::game::lemma_distinct_cells_len(g.consumed);
        }
        let ghost whole = picked_from(pl, cv, 0);
        let mut kept: Vec<Coin> = Vec::new();
        let ghost mut acc: Seq<PosV> = Seq::empty();
        let mut i: usize = 0;
        while i < self.coins.len()
            invariant
                i <= self.coins.len(),
                coins_view(self.coins@) == cv,
                self.player@ == g.player,
                self@.tiles == g.tiles,
                self@.specials == g.specials,
                self@.monsters == g.monsters,
                self@.screen == g.screen,
                self@.pipe == g.pipe,
                self@.offset_y == g.offset_y,
                self@.entering_pipe == g.entering_pipe,
                self@.enter_timer == g.enter_timer,
                pl == player_box(g.player),
                whole == picked_from(pl, cv, 0),
                cv.len() <= crate::COLS * crate::ROWS,
                g.consumed.len() <= crate::COLS * crate::ROWS,
                g.score == COIN_SCORE * g.consumed.len(),
                forall|k: int| 0 <= k < cv.len() ==> wf_coin(#[trigger] cv[k]),
                forall|k: int, l: int|
                    0 <= k < l < cv.len() ==> (#[trigger] cv[k].pos) != (#[trigger] cv[l].pos),
                forall|k: int| 0 <= k < cv.len() ==> !pos_in(g.consumed, (#[trigger] cv[k]).pos),
                forall|k: int, l: int|
                    0 <= k < l < g.consumed.len() ==> (#[trigger] g.consumed[k])
                        != (#[trigger] g.consumed[l]),
                whole.0 == coins_view(kept@) + picked_from(pl, cv, i as int).0,
                whole.1 == acc + picked_from(pl, cv, i as int).1,
                acc.len() <= i,
                pos_view(self.consumed@) == g.consumed + acc,
                self.score as int == g.score + COIN_SCORE * acc.len(),
                self@.spawn_timer == (if acc.len() > 0 {
                    g.spawn_interval
                } else {
                    g.spawn_timer
                }),
                self@.spawn_interval == g.spawn_interval,
                0 <= g.spawn_timer <= g.spawn_interval,
                g.spawn_interval == SPAWN_INTERVAL,
                -crate::physics::MID_LIM <= g.player.x <= crate::physics::MID_LIM,
                -crate::physics::MID_LIM <= g.player.y <= crate::physics::MID_LIM,
                g.player.w == PLAYER_W,
                g.player.h == PLAYER_H,
            decreases self.coins.len() - i,
        {
            proof {
                assert(wf_coin(cv[i as int]));
            }
            let c = self.coins[i];
            let prect = self.player.rect();
            let ghost rest = picked_from(pl, cv, i as int);
            let ghost rest1 = picked_from(pl, cv, i + 1);
            if rect_intersect(&prect, &c.rect) {
                proof {
                    assert(rest.1 == seq![cv[i as int].pos] + rest1.1);
                    assert(whole.1[acc.len() as int] == c@.pos);
                    lemma_picked_props(pl, cv, 0);
                    if pos_in(acc, c@.pos) {
                        let a = choose|a: int| 0 <= a < acc.len() && acc[a] == c@.pos;
                        assert(whole.1[a] == whole.1[acc.len() as int]);
                    }
                    if pos_in(g.consumed, c@.pos) {
                        assert(!pos_in(g.consumed, cv[i as int].pos));
                    }
                }
                self.score = self.score + COIN_SCORE;
                self.spawn_timer = self.spawn_interval;
                self.consumed.push(c.pos);
                proof {
                    assert(pos_view(self.consumed@) =~= (g.consumed + acc).push(c@.pos));
                    acc = acc.push(c@.pos);
                    assert(g.consumed + acc =~= (g.consumed + acc.drop_last()).push(c@.pos));
                    assert(whole.1 =~= acc + rest1.1);
                }
            } else {
                let ghost kbefore = coins_view(kept@);
                kept.push(c);
                proof {
                    assert(rest.0 == seq![cv[i as int]] + rest1.0);
                    assert(coins_view(kept@) =~= kbefore.push(c@));
                    assert(whole.0 =~= coins_view(kept@) + rest1.0);
                }
            }
            i += 1;
        }
        self.coins = kept;
        proof {
            assert(picked_from(pl, cv, cv.len() as int).0 =~= Seq::<CoinV>::empty());
            assert(picked_from(pl, cv, cv.len() as int).1 =~= Seq::<PosV>::empty());
            assert(whole.0 =~= coins_view(self.coins@));
            assert(whole.1 =~= acc);
            assert(self@ =~= pickup_phase(g));
            lemma_picked_props(pl, cv, 0);
            assert forall|k: int| 0 <= k < self@.coins.len() implies wf_coin(
                #[trigger] self@.coins[k],
            ) by {
                let a = choose|a: int| 0 <= a < cv.len() && whole.0[k] == cv[a];
                assert(wf_coin(cv[a]));
            }
            assert forall|k: int| 0 <= k < self@.coins.len() implies !pos_in(
                self@.consumed,
                (#[trigger] self@.coins[k]).pos,
            ) by {
                let a = choose|a: int| 0 <= a < cv.len() && whole.0[k] == cv[a];
                if pos_in(self@.consumed, whole.0[k].pos) {
                    let b = choose|b: int|
                        0 <= b < self@.consumed.len() && self@.consumed[b] == whole.0[k].pos;
                    if b < g.consumed.len() {
                        assert(!pos_in(g.consumed, cv[a].pos));
                        assert(pos_in(g.consumed, self@.consumed[b]));
                    } else {
                        assert(self@.consumed[b] == whole.1[b - g.consumed.len()]);
                    }
                }
            }
            assert forall|k: int, l: int|
                0 <= k < l < self@.consumed.len() implies (#[trigger] self@.consumed[k])
                != (#[trigger] self@.consumed[l]) by {
                if k < g.consumed.len() && l >= g.consumed.len() {
                    let lb = l - g.consumed.len();
                    assert(self@.consumed[l] == whole.1[lb]);
                    let a = choose|a: int| 0 <= a < cv.len() && whole.1[lb] == cv[a].pos;
                    if self@.consumed[k] == self@.consumed[l] {
                        assert(!pos_in(g.consumed, cv[a].pos));
                        assert(pos_in(g.consumed, self@.consumed[k]));
                    }
                } else if k >= g.consumed.len() {
                    assert(self@.consumed[k] == whole.1[k - g.consumed.len()]);
                    assert(self@.consumed[l] == whole.1[l - g.consumed.len()]);
                }
            }
            assert forall|k: int| 0 <= k < self@.consumed.len() implies wf_pos(
                #[trigger] self@.consumed[k],
            ) by {
                if k >= g.consumed.len() {
                    let a = choose|a: int|
                        0 <= a < cv.len() && whole.1[k - g.consumed.len()] == cv[a].pos;
                    assert(wf_coin(cv[a]));
                }
            }
        }
    }

    /// Updates every monster and checks for defeat; see [`monsters_phase`].
    pub fn monsters_step(&mut self, dt: i64)
        requires
            0 <= dt <= DT_MAX,
            old(self)@.screen == Screen::Playing,
            OFF_MIN <= old(self)@.offset_y <= WIN_MAX,
            forall|i: int|
                0 <= i < old(self)@.tiles.len() ==> wf_tile(
                    #[trigger] old(self)@.tiles[i],
                    old(self)@.offset_y,
                ),
            forall|i: int| 0 <= i < old(self)@.monsters.len() ==> wf_monster(
                #[trigger] old(self)@.monsters[i],
            ),
            old(self)@.player.w == PLAYER_W,
            old(self)@.player.h == PLAYER_H,
            -crate::physics::MID_LIM <= old(self)@.player.x <= crate::physics::MID_LIM,
            -crate::physics::MID_LIM <= old(self)@.player.y <= crate::physics::MID_LIM,
        ensures
            final(self)@ == monsters_phase(old(self)@, dt as int),
            forall|i: int| 0 <= i < final(self)@.monsters.len() ==> wf_monster(
                #[trigger] final(self)@.monsters[i],
            ),
            final(self)@.screen == Screen::Playing || final(self)@.screen == Screen::GameOver,
    {
        let ghost g = old(self)@;
        let ghost tv = g.tiles;
        let ghost ms0 = g.monsters;
        proof {
            assert forall|k: int| 0 <= k < tv.len() implies tile_ok(#[trigger] tv[k]) by {
                lemma_wf_tile_ok(tv[k], g.offset_y);
            }
            lemma_monsters_from_props(g.player, tv, ms0, dt as int, 0, Screen::Playing);
        }
        let mut built: Vec<Monster> = Vec::new();
        let mut i: usize = 0;
        while i < self.monsters.len()
            invariant
                i <= self.monsters.len(),
                monsters_view(self.monsters@) == ms0,
                rects_view(self.tiles@) == tv,
                self.player@ == g.player,
                self@.coins == g.coins,
                self@.specials == g.specials,
                self@.consumed == g.consumed,
                self@.score == g.score,
                self@.pipe == g.pipe,
                self@.offset_y == g.offset_y,
                self@.spawn_timer == g.spawn_timer,
                self@.spawn_interval == g.spawn_interval,
                self@.entering_pipe == g.entering_pipe,
                self@.enter_timer == g.enter_timer,
                0 <= dt <= DT_MAX,
                forall|k: int| 0 <= k < tv.len() ==> tile_ok(#[trigger] tv[k]),
                forall|k: int| 0 <= k < ms0.len() ==> wf_monster(#[trigger] ms0[k]),
                -crate::physics::MID_LIM <= g.player.x <= crate::physics::MID_LIM,
                -crate::physics::MID_LIM <= g.player.y <= crate::physics::MID_LIM,
                g.player.w == PLAYER_W,
                g.player.h == PLAYER_H,
                self@.screen == Screen::Playing || self@.screen == Screen::GameOver,
                forall|k: int| 0 <= k < built@.len() ==> wf_monster(
                    #[trigger] monsters_view(built@)[k],
                ),
                ({
                    let whole = monsters_from(g.player, tv, ms0, dt as int, 0, Screen::Playing);
                    let rest = monsters_from(g.player, tv, ms0, dt as int, i as int, self@.screen);
                    whole.0 == monsters_view(built@) + rest.0 && whole.1 == rest.1
                }),
            decreases self.monsters.len() - i,
        {
            proof {
                assert(wf_monster(ms0[i as int]));
            }
            let m = self.monsters[i];
            let ghost before = monsters_view(built@);
            if self.screen == Screen::Playing {
                let m2 = crate::physics::monster_tick(&m, &self.tiles, dt);
                built.push(m2);
                let prect = self.player.rect();
                let mrect = m2.rect();
                let hit = rect_intersect(&prect, &mrect);
                if hit {
                    self.screen = Screen::GameOver;
                }
                proof {
                    assert(monsters_view(built@) =~= before.push(m2@));
                    let whole = monsters_from(g.player, tv, ms0, dt as int, 0, Screen::Playing);
                    let rest1 = monsters_from(
                        g.player,
                        tv,
                        ms0,
                        dt as int,
                        i + 1,
                        self@.screen,
                    );
                    assert(whole.0 =~= monsters_view(built@) + rest1.0);
                }
            } else {
                built.push(m);
                proof {
                    assert(monsters_view(built@) =~= before.push(m@));
                    let whole = monsters_from(g.player, tv, ms0, dt as int, 0, Screen::Playing);
                    let rest = monsters_from(g.player, tv, ms0, dt as int, i as int, self@.screen);
                    let rest1 = monsters_from(
                        g.player,
                        tv,
                        ms0,
                        dt as int,
                        i + 1,
                        self@.screen,
                    );
                    assert(rest.0 =~= ms0.subrange(i as int, ms0.len() as int));
                    assert(rest1.0 =~= ms0.subrange(i + 1, ms0.len() as int));
                    assert(rest.0 =~= seq![ms0[i as int]] + rest1.0);
                    assert(whole.0 =~= monsters_view(built@) + rest1.0);
                }
            }
            i += 1;
        }
        self.monsters = built;
        proof {
            let whole = monsters_from(g.player, tv, ms0, dt as int, 0, Screen::Playing);
            assert(monsters_from(
                g.player,
                tv,
                ms0,
                dt as int,
                ms0.len() as int,
                self@.screen,
            ).0 =~= Seq::<MonsterV>::empty());
            assert(whole.0 =~= monsters_view(self.monsters@));
            assert(self@ =~= monsters_phase(g, dt as int));
        }
    }

    /// Runs one tick of the scripted pipe entry; see [`entry_phase`].
    pub fn entry_step(&mut self, dt: i64)
        requires
            wf(old(self)@),
            0 <= dt <= DT_MAX,
            old(self)@.screen == Screen::Playing,
            old(self)@.entering_pipe,
            old(self)@.pipe is Some,
        ensures
            final(self)@ == entry_phase(old(self)@, dt as int),
            wf(final(self)@),
    {
        let ghost g = old(self)@;
        if let Some(pipe) = self.pipe {
            let target: i64 = pipe.x + 16_000 - 12_000;
            let dx: i64 = target - self.player.x;
            let blend: i64 = crate::geom::scale_i64(dx, 100 + 3 * dt);
            self.player.x = self.player.x + blend;
            let sink: i64 = crate::geom::scale_i64(PIPE_DESCEND, dt);
            self.player.y = self.player.y + sink;
            self.enter_timer = self.enter_timer + dt;
            if self.enter_timer > ENTER_LIMIT || self.player.y > pipe.y + 24_000 {
                self.screen = Screen::Victory;
            }
            proof {
                assert(self@ =~= entry_phase(g, dt as int));
            }
        }
    }

    /// Advances the simulation by one frame: logical input state, the
    /// frame's time delta in milliseconds (at most [`DT_MAX`]), and the
    /// current viewport extents. Only play simulates; an active pipe entry
    /// runs the scripted descent instead of the normal pipeline.
    pub fn tick(&mut self, inp: Input, dt: i64, win_w: i64, win_h: i64)
        requires
            wf(old(self)@),
            0 <= dt <= DT_MAX,
            0 <= win_w <= WIN_MAX,
            0 <= win_h <= WIN_MAX,
        ensures
            final(self)@ == tick_spec(
                old(self)@,
                inp,
                dt as int,
                win_w as int,
                win_h as int,
            ),
            wf(final(self)@),
    {
        let ghost g = old(self)@;
        if !(self.screen == Screen::Playing) {
            return ;
        }
        if self.entering_pipe && self.pipe.is_some() {
            self.entry_step(dt);
            return ;
        }
        self.entering_pipe = false;
        let ghost g0 = GameV { entering_pipe: false, ..g };
        proof {
            assert(self@ =~= g0);
        }
        crate::physics::player_input(&mut self.player, inp);
        let ghost g1 = GameV { player: crate::physics::input_step(g0.player, inp), ..g0 };
        proof {
            assert(self@ =~= g1);
        }
        crate::physics::apply_gravity(&mut self.player, dt);
        let ghost g2 = GameV { player: gravity_step(g1.player, dt as int), ..g1 };
        proof {
            assert(self@ =~= g2);
        }
        crate::physics::move_horizontal(&mut self.player, dt);
        let ghost g3 = GameV { player: move_x_step(g2.player, dt as int), ..g2 };
        proof {
            assert(self@ =~= g3);
            assert forall|k: int| 0 <= k < g3.tiles.len() implies tile_ok(
                #[trigger] rects_view(self.tiles@)[k],
            ) by {
                lemma_wf_tile_ok(g3.tiles[k], g3.offset_y);
            }
        }
        crate::physics::resolve_horizontal(&mut self.player, &self.tiles);
        let ghost g4 = GameV {
            player: resolve_x_upto(g3.player, g3.tiles, g3.tiles.len() as int),
            ..g3
        };
        proof {
            assert(self@ =~= g4);
            crate::physics::lemma_resolve_x_props(g3.player, g3.tiles, g3.tiles.len() as int);
        }
        crate::physics::move_vertical(&mut self.player, dt);
        let ghost g5 = GameV { player: move_y_step(g4.player, dt as int), ..g4 };
        proof {
            assert(self@ =~= g5);
        }
        self.spawn_step(dt, win_h);
        let ghost g6 = spawn_phase(g5, dt as int, win_h as int);
        self.resolve_vertical();
        let ghost g7 = resolve_y_phase(g6);
        crate::physics::clamp_player(&mut self.player, win_w, win_h);
        let ghost g8 = GameV { player: clamp_step(g7.player, win_w as int, win_h as int), ..g7 };
        proof {
            assert(self@ =~= g8);
        }
        self.trigger_step();
        let ghost g9 = trigger_phase(g8);
        self.pickup_step();
        let ghost g10 = pickup_phase(g9);
        self.monsters_step(dt);
        proof {
            assert(self@ =~= monsters_phase(g10, dt as int));
            assert(self@ =~= tick_spec(g, inp, dt as int, win_w as int, win_h as int));
        }
    }
}

} // verus!
