//! Global laws of the simulation, stated and proved over the specification
//! model that the executable functions are pinned to.

use vstd::prelude::*;
use crate::entity::{player_box, Input, PlayerV, PosV};
use crate::game::{pos_in, reset_spec, wf, GameV};
use crate::geom::{overlaps, RectV};
use crate::physics::resolve_x_once;
use crate::tick::{lemma_picked_props, lemma_resolve_y_props, picked_from, pickup_phase,
    resolve_y_once, resolve_y_phase, spawn_phase, tick_spec, trigger_phase, YState};
use crate::{DT_MAX, WIN_MAX};

verus! {

/// A body moving horizontally into a tile it overlaps is, after one
/// horizontal resolution step, separated from that tile on the horizontal
/// axis; the step never moves it vertically.
pub proof fn lemma_resolve_x_separates(p: PlayerV, t: RectV)
    requires
        overlaps(player_box(p), t),
        p.vx != 0,
    ensures
        ({
            let r = resolve_x_once(p, t);
            &&& (r.x + r.w <= t.x || r.x >= t.x + t.w)
            &&& r.y == p.y
            &&& r.h == p.h
            &&& r.vx == 0
        }),
{
}

/// A body moving vertically into a tile it overlaps is, after one vertical
/// resolution step, separated from that tile on the vertical axis; the step
/// never moves it horizontally.
pub proof fn lemma_resolve_y_separates(st: YState, t: RectV, consumed: Seq<PosV>, off: int)
    requires
        overlaps(player_box(st.player), t),
        st.player.vy != 0,
    ensures
        ({
            let r = resolve_y_once(st, t, consumed, off);
            &&& (r.player.y + r.player.h <= t.y || r.player.y >= t.y + t.h)
            &&& r.player.x == st.player.x
            &&& r.player.w == st.player.w
            &&& r.player.vy == 0
        }),
{
}

/// Once a grid cell is consumed, a tick keeps it consumed and creates no
/// coin at it: the cell stays closed for the rest of the game, whatever the
/// input, the frame delta or the viewport.
pub proof fn lemma_consumed_cell_stays_closed(
    g: GameV,
    inp: Input,
    dt: int,
    win_w: int,
    win_h: int,
    cell: PosV,
)
    requires
        wf(g),
        pos_in(g.consumed, cell),
        0 <= dt <= DT_MAX,
        0 <= win_h <= WIN_MAX,
    ensures
        pos_in(tick_spec(g, inp, dt, win_w, win_h).consumed, cell),
        forall|i: int|
            0 <= i < tick_spec(g, inp, dt, win_w, win_h).coins.len() ==> (#[trigger] tick_spec(
                g,
                inp,
                dt,
                win_w,
                win_h,
            ).coins[i]).pos != cell,
{
    let r = tick_spec(g, inp, dt, win_w, win_h);
    if g.screen != crate::entity::Screen::Playing {
        lemma_no_coin_on_consumed(g.coins, g.consumed, cell);
    } else if g.entering_pipe && g.pipe is Some {
        lemma_no_coin_on_consumed(g.coins, g.consumed, cell);
    } else {
        let g0 = GameV { entering_pipe: false, ..g };
        let g1 = GameV { player: crate::physics::input_step(g0.player, inp), ..g0 };
        let g2 = GameV { player: crate::physics::gravity_step(g1.player, dt), ..g1 };
        let g3 = GameV { player: crate::physics::move_x_step(g2.player, dt), ..g2 };
        let g4 = GameV {
            player: crate::physics::resolve_x_upto(g3.player, g3.tiles, g3.tiles.len() as int),
            ..g3
        };
        let g5 = GameV { player: crate::physics::move_y_step(g4.player, dt), ..g4 };
        let g6 = spawn_phase(g5, dt, win_h);
        crate::tick::lemma_spawn_phase_props(g5, dt, win_h);
        let st0 = YState {
            player: PlayerV { on_ground: false, ..g6.player },
            coins: g6.coins,
            specials: g6.specials,
        };
        lemma_resolve_y_props(st0, g6.tiles, g6.consumed, g6.offset_y, g6.tiles.len() as int);
        let g7 = resolve_y_phase(g6);
        let g8 = GameV { player: crate::physics::clamp_step(g7.player, win_w, win_h), ..g7 };
        let g9 = trigger_phase(g8);
        let g10 = pickup_phase(g9);
        assert(g9.coins == g7.coins);
        assert forall|a: int, b: int|
            0 <= a < b < g9.coins.len() implies (#[trigger] g9.coins[a].pos)
            != (#[trigger] g9.coins[b].pos) by {}
        lemma_picked_props(player_box(g9.player), g9.coins, 0);
        let kept = picked_from(player_box(g9.player), g9.coins, 0).0;
        assert forall|i: int| 0 <= i < r.coins.len() implies (#[trigger] r.coins[i]).pos
            != cell by {
            assert(r.coins == kept);
            let k = choose|k: int| 0 <= k < g9.coins.len() && kept[i] == g9.coins[k];
            assert(!pos_in(g6.consumed, g9.coins[k].pos));
            if r.coins[i].pos == cell {
                assert(pos_in(g.consumed, g9.coins[k].pos));
            }
        }
        let picked = picked_from(player_box(g9.player), g9.coins, 0).1;
        assert(r.consumed == g.consumed + picked);
        let w = choose|w: int| 0 <= w < g.consumed.len() && g.consumed[w] == cell;
        assert(r.consumed[w] == cell);
    }
}

/// With a well-formed state no live coin sits on a consumed cell at all.
proof fn lemma_no_coin_on_consumed(
    coins: Seq<crate::entity::CoinV>,
    consumed: Seq<PosV>,
    cell: PosV,
)
    requires
        pos_in(consumed, cell),
        forall|i: int| 0 <= i < coins.len() ==> !pos_in(consumed, (#[trigger] coins[i]).pos),
    ensures
        forall|i: int| 0 <= i < coins.len() ==> (#[trigger] coins[i]).pos != cell,
{
    assert forall|i: int| 0 <= i < coins.len() implies (#[trigger] coins[i]).pos != cell by {
        if coins[i].pos == cell {
            assert(pos_in(consumed, coins[i].pos));
        }
    }
}

/// A player-only reset (quitting to the menu) keeps every consumed cell
/// closed: the coins and the consumed set are untouched, so no coin can
/// appear at the cell until a full game reset opens a new game.
pub proof fn lemma_player_reset_keeps_cells_closed(g: GameV, cell: PosV)
    requires
        wf(g),
        pos_in(g.consumed, cell),
    ensures
        pos_in(crate::game::reset_player_spec(g).consumed, cell),
        forall|i: int|
            0 <= i < crate::game::reset_player_spec(g).coins.len() ==> (
            #[trigger] crate::game::reset_player_spec(g).coins[i]).pos != cell,
{
    lemma_no_coin_on_consumed(g.coins, g.consumed, cell);
}

/// The score never decreases across a tick: only a new game resets it.
pub proof fn lemma_score_never_decreases(g: GameV, inp: Input, dt: int, win_w: int, win_h: int)
    ensures
        tick_spec(g, inp, dt, win_w, win_h).score >= g.score,
        tick_spec(g, inp, dt, win_w, win_h).consumed.len() >= g.consumed.len(),
{
}

/// A full reset is deterministic: resetting a freshly reset game changes
/// nothing, because the rebuild is a function of the fixed map and the
/// stored offset alone.
pub proof fn lemma_reset_deterministic(g: GameV)
    ensures
        reset_spec(reset_spec(g)) == reset_spec(g),
{
    assert(reset_spec(reset_spec(g)) =~= reset_spec(g));
}

} // verus!
