//! Per-tick physics of the moving bodies: input-driven walking and jumping,
//! gravity, axis integration, horizontal collision resolution against the
//! tile list in parse order, viewport clamping, and the monster's patrol
//! with its ground-adherence rule.

use vstd::prelude::*;
use crate::entity::{wf_monster, Input, Monster, MonsterV, Player, PlayerV, player_box,
    monster_box};
use crate::geom::{overlaps, rect_intersect, rects_view, scale_i64, scaled, Rect, RectV};
use crate::level::tile_ok;
use crate::{DT_MAX, FALL_CAP, GRAVITY, JUMP_V, MOVE_SPEED, PLAYER_H, PLAYER_W, POS_LIM, SCALE,
    VY_MAX, WIN_MAX};

verus! {

/// Coordinate slack for mid-tick player positions, before the viewport
/// clamp pulls them back.
pub const MID_LIM: i64 = 5_000_000_000;

/// Input mapping: walking speed is `-1`, `0` or `+1` times the fixed move
/// speed; a jump launches only a grounded player and ungrounds it.
pub open spec fn input_step(p: PlayerV, inp: Input) -> PlayerV {
    let vx: int = if inp.right && !inp.left {
        MOVE_SPEED as int
    } else if inp.left && !inp.right {
        -MOVE_SPEED
    } else {
        0
    };
    if inp.jump && p.on_ground {
        PlayerV { vx, vy: JUMP_V as int, on_ground: false, ..p }
    } else {
        PlayerV { vx, ..p }
    }
}

/// Executable form of [`input_step`].
pub fn player_input(p: &mut Player, inp: Input)
    ensures
        final(p)@ == input_step(old(p)@, inp),
{
    let mut vx: i64 = 0;
    if inp.left {
        vx = vx - MOVE_SPEED;
    }
    if inp.right {
        vx = vx + MOVE_SPEED;
    }
    p.vx = vx;
    if inp.jump && p.on_ground {
        p.vy = JUMP_V;
        p.on_ground = false;
    }
}

/// Gravity accelerates the fall, saturating at the model's terminal speed.
pub open spec fn gravity_step(p: PlayerV, dt: int) -> PlayerV {
    let vy1 = p.vy + scaled(GRAVITY as int, dt);
    PlayerV { vy: if vy1 > VY_MAX { VY_MAX as int } else { vy1 }, ..p }
}

/// Executable form of [`gravity_step`].
pub fn apply_gravity(p: &mut Player, dt: i64)
    requires
        0 <= dt <= DT_MAX,
        JUMP_V <= old(p)@.vy <= VY_MAX,
    ensures
        final(p)@ == gravity_step(old(p)@, dt as int),
        JUMP_V <= final(p)@.vy <= VY_MAX,
{
    let dv = scale_i64(GRAVITY, dt);
    let vy1 = p.vy + dv;
    p.vy = if vy1 > VY_MAX {
        VY_MAX
    } else {
        vy1
    };
}

/// Horizontal integration: `x` advances by `vx` scaled with the tick's
/// time delta.
pub open spec fn move_x_step(p: PlayerV, dt: int) -> PlayerV {
    PlayerV { x: p.x + scaled(p.vx, dt), ..p }
}

/// Executable form of [`move_x_step`].
pub fn move_horizontal(p: &mut Player, dt: i64)
    requires
        0 <= dt <= DT_MAX,
        -POS_LIM <= old(p)@.x <= POS_LIM,
        -MOVE_SPEED <= old(p)@.vx <= MOVE_SPEED,
    ensures
        final(p)@ == move_x_step(old(p)@, dt as int),
        -MID_LIM <= final(p)@.x <= MID_LIM,
{
    let dx = scale_i64(p.vx, dt);
    p.x = p.x + dx;
}

/// Vertical integration: `y` advances by `vy` scaled with the tick's
/// time delta.
pub open spec fn move_y_step(p: PlayerV, dt: int) -> PlayerV {
    PlayerV { y: p.y + scaled(p.vy, dt), ..p }
}

/// Executable form of [`move_y_step`].
pub fn move_vertical(p: &mut Player, dt: i64)
    requires
        0 <= dt <= DT_MAX,
        -POS_LIM <= old(p)@.y <= POS_LIM,
        JUMP_V <= old(p)@.vy <= VY_MAX,
    ensures
        final(p)@ == move_y_step(old(p)@, dt as int),
        -MID_LIM <= final(p)@.y <= MID_LIM,
{
    let dy = scale_i64(p.vy, dt);
    p.y = p.y + dy;
}

/// Resolution of one tile on the horizontal axis: on overlap, a rightward
/// mover is pushed to the tile's left edge, a leftward mover to its right
/// edge, and the horizontal velocity is zeroed.
pub open spec fn resolve_x_once(p: PlayerV, t: RectV) -> PlayerV {
    if overlaps(player_box(p), t) {
        let x2: int = if p.vx > 0 {
            t.x - p.w
        } else if p.vx < 0 {
            t.x + t.w
        } else {
            p.x
        };
        PlayerV { x: x2, vx: 0, ..p }
    } else {
        p
    }
}

/// Horizontal resolution against the first `n` tiles, each overlap resolved
/// in full before the next tile is checked, in the list's parse order.
pub open spec fn resolve_x_upto(p: PlayerV, tiles: Seq<RectV>, n: int) -> PlayerV
    decreases n,
{
    if n <= 0 {
        p
    } else {
        resolve_x_once(resolve_x_upto(p, tiles, n - 1), tiles[n - 1])
    }
}

/// Horizontal resolution leaves everything but `x` and `vx` alone, keeps
/// `x` in tile range or untouched, and either keeps or zeroes `vx`.
pub proof fn lemma_resolve_x_props(p: PlayerV, tiles: Seq<RectV>, n: int)
    requires
        n <= tiles.len(),
        forall|i: int| 0 <= i < tiles.len() ==> tile_ok(#[trigger] tiles[i]),
    ensures
        ({
            let r = resolve_x_upto(p, tiles, n);
            &&& r.y == p.y
            &&& r.w == p.w
            &&& r.h == p.h
            &&& r.vy == p.vy
            &&& r.on_ground == p.on_ground
            &&& (r.vx == p.vx || r.vx == 0)
            &&& (r.x == p.x || 0 - p.w <= r.x <= (crate::COLS - 1) * crate::TILE + crate::TILE)
        }),
    decreases n,
{
    if n > 0 {
        lemma_resolve_x_props(p, tiles, n - 1);
    }
}

/// Executable form of [`resolve_x_upto`] over the whole tile list.
pub fn resolve_horizontal(p: &mut Player, tiles: &Vec<Rect>)
    requires
        forall|i: int| 0 <= i < tiles@.len() ==> tile_ok(#[trigger] rects_view(tiles@)[i]),
        -MID_LIM <= old(p)@.x <= MID_LIM,
        -MID_LIM <= old(p)@.y <= MID_LIM,
        old(p)@.w == PLAYER_W,
        old(p)@.h == PLAYER_H,
    ensures
        final(p)@ == resolve_x_upto(old(p)@, rects_view(tiles@), tiles@.len() as int),
{
    let ghost p0 = p@;
    let ghost tv = rects_view(tiles@);
    let mut i: usize = 0;
    while i < tiles.len()
        invariant
            i <= tiles.len(),
            tv == rects_view(tiles@),
            forall|k: int| 0 <= k < tv.len() ==> tile_ok(#[trigger] tv[k]),
            p@ == resolve_x_upto(p0, tv, i as int),
            -MID_LIM <= p@.x <= MID_LIM,
            -MID_LIM <= p@.y <= MID_LIM,
            p@.w == PLAYER_W,
            p@.h == PLAYER_H,
        decreases tiles.len() - i,
    {
        proof {
            assert(tile_ok(tv[i as int]));
        }
        let t = tiles[i];
        let prect = p.rect();
        if rect_intersect(&prect, &t) {
            if p.vx > 0 {
                p.x = t.x - p.w;
            } else if p.vx < 0 {
                p.x = t.x + t.w;
            }
            p.vx = 0;
        }
        i += 1;
    }
}

/// Viewport clamping, all four sides; hitting the floor grounds the body
/// and stops its fall, overriding tile resolution.
pub open spec fn clamp_step(p: PlayerV, win_w: int, win_h: int) -> PlayerV {
    let x1: int = if p.x < 0 {
        0
    } else {
        p.x
    };
    let x2: int = if x1 + p.w > win_w {
        win_w - p.w
    } else {
        x1
    };
    let y1: int = if p.y < 0 {
        0
    } else {
        p.y
    };
    if y1 + p.h > win_h {
        PlayerV { x: x2, y: win_h - p.h, vy: 0, on_ground: true, ..p }
    } else {
        PlayerV { x: x2, y: y1, ..p }
    }
}

/// Executable form of [`clamp_step`].
pub fn clamp_player(p: &mut Player, win_w: i64, win_h: i64)
    requires
        0 <= win_w <= WIN_MAX,
        0 <= win_h <= WIN_MAX,
        -MID_LIM <= old(p)@.x <= MID_LIM,
        -MID_LIM <= old(p)@.y <= MID_LIM,
        old(p)@.w == PLAYER_W,
        old(p)@.h == PLAYER_H,
    ensures
        final(p)@ == clamp_step(old(p)@, win_w as int, win_h as int),
        -PLAYER_W <= final(p)@.x <= WIN_MAX,
        -PLAYER_H <= final(p)@.y <= WIN_MAX,
{
    if p.x < 0 {
        p.x = 0;
    }
    if p.x + p.w > win_w {
        p.x = win_w - p.w;
    }
    if p.y < 0 {
        p.y = 0;
    }
    if p.y + p.h > win_h {
        p.y = win_h - p.h;
        p.vy = 0;
        p.on_ground = true;
    }
}

/// Patrol movement: the monster advances, reverses to walk right when it
/// reaches `range_min`, and to walk left when its far edge reaches
/// `range_max`, clamped to the boundary it hit.
pub open spec fn monster_patrol(m: MonsterV, dt: int) -> MonsterV {
    let mag: int = if m.vx >= 0 {
        m.vx
    } else {
        -m.vx
    };
    let x1 = m.x + scaled(m.vx, dt);
    if x1 < m.range_min {
        MonsterV { x: m.range_min, vx: mag, ..m }
    } else if x1 + m.w > m.range_max {
        MonsterV { x: m.range_max - m.w, vx: -mag, ..m }
    } else {
        MonsterV { x: x1, ..m }
    }
}

/// Index of the first tile overlapping `probe` at or after position `i`.
pub open spec fn first_hit(tiles: Seq<RectV>, probe: RectV, i: int) -> Option<int>
    decreases tiles.len() - i,
{
    if i < 0 || i >= tiles.len() {
        None
    } else if overlaps(tiles[i], probe) {
        Some(i)
    } else {
        first_hit(tiles, probe, i + 1)
    }
}

/// A found first hit is a real overlapping tile at or after the start.
pub proof fn lemma_first_hit_in_range(tiles: Seq<RectV>, probe: RectV, i: int)
    ensures
        match first_hit(tiles, probe, i) {
            Some(j) => i <= j < tiles.len() && overlaps(tiles[j], probe),
            None => true,
        },
    decreases tiles.len() - i,
{
    if 0 <= i < tiles.len() && !overlaps(tiles[i], probe) {
        lemma_first_hit_in_range(tiles, probe, i + 1);
    }
}

/// Ground adherence: probe one sub-pixel below the body; the first
/// overlapping tile snaps the body's feet to its top; with no ground below,
/// the body free-falls, never past the model's bottom of the world.
pub open spec fn monster_vertical(m: MonsterV, tiles: Seq<RectV>, dt: int) -> MonsterV {
    let probe = RectV { x: m.x, y: m.y + SCALE, w: m.w, h: m.h };
    match first_hit(tiles, probe, 0) {
        Some(i) => MonsterV { y: tiles[i].y - m.h, ..m },
        None => {
            let y1 = m.y + scaled(GRAVITY as int, dt);
            MonsterV { y: if y1 > FALL_CAP { FALL_CAP as int } else { y1 }, ..m }
        },
    }
}

/// One full monster tick: patrol, then ground adherence.
pub open spec fn monster_step(m: MonsterV, tiles: Seq<RectV>, dt: int) -> MonsterV {
    monster_vertical(monster_patrol(m, dt), tiles, dt)
}

/// A monster step keeps the monster well formed.
pub proof fn lemma_monster_step_wf(m: MonsterV, tiles: Seq<RectV>, dt: int)
    requires
        wf_monster(m),
        0 <= dt <= DT_MAX,
        forall|i: int| 0 <= i < tiles.len() ==> tile_ok(#[trigger] tiles[i]),
    ensures
        wf_monster(monster_step(m, tiles, dt)),
{
    crate::geom::lemma_scaled_bounds(m.vx, dt);
    crate::geom::lemma_scaled_bounds(GRAVITY as int, dt);
    let m1 = monster_patrol(m, dt);
    assert(wf_monster(m1));
    let probe = RectV { x: m1.x, y: m1.y + SCALE, w: m1.w, h: m1.h };
    lemma_first_hit_in_range(tiles, probe, 0);
    match first_hit(tiles, probe, 0) {
        Some(j) => {
            assert(tile_ok(tiles[j]));
        },
        None => {},
    }
}

/// Executable form of [`monster_step`]; the step preserves the monster's
/// well-formedness.
pub fn monster_tick(m: &Monster, tiles: &Vec<Rect>, dt: i64) -> (r: Monster)
    requires
        0 <= dt <= DT_MAX,
        wf_monster(m@),
        forall|i: int| 0 <= i < tiles@.len() ==> tile_ok(#[trigger] rects_view(tiles@)[i]),
    ensures
        r@ == monster_step(m@, rects_view(tiles@), dt as int),
        wf_monster(r@),
{
    let ghost tv = rects_view(tiles@);
    let mut r = *m;
    let mag: i64 = if r.vx >= 0 {
        r.vx
    } else {
        -r.vx
    };
    let dx = scale_i64(r.vx, dt);
    let x1 = r.x + dx;
    if x1 < r.range_min {
        r.x = r.range_min;
        r.vx = mag;
    } else if x1 + r.w > r.range_max {
        r.x = r.range_max - r.w;
        r.vx = -mag;
    } else {
        r.x = x1;
    }
    proof {
        assert(r@ == monster_patrol(m@, dt as int));
    }

    let probe = Rect { x: r.x, y: r.y + SCALE, w: r.w, h: r.h };
    let mut found: bool = false;
    let mut snap_y: i64 = 0;
    let mut i: usize = 0;
    while i < tiles.len()
        invariant
            i <= tiles.len(),
            tv == rects_view(tiles@),
            forall|k: int| 0 <= k < tv.len() ==> tile_ok(#[trigger] tv[k]),
            -POS_LIM <= r@.x <= POS_LIM,
            -POS_LIM <= r@.y <= FALL_CAP,
            r@.w == crate::MONSTER_SIZE,
            r@.h == crate::MONSTER_SIZE,
            probe@ == (RectV { x: r@.x, y: r@.y + SCALE, w: r@.w, h: r@.h }),
            !found ==> first_hit(tv, probe@, 0) == first_hit(tv, probe@, i as int),
            found ==> match first_hit(tv, probe@, 0) {
                Some(j) => snap_y as int == tv[j].y - r@.h,
                None => false,
            },
        decreases tiles.len() - i,
    {
        proof {
            assert(tile_ok(tv[i as int]));
        }
        if !found {
            let t = tiles[i];
            if rect_intersect(&probe, &t) {
                found = true;
                snap_y = t.y - r.h;
            }
        }
        i += 1;
    }
    if found {
        proof {
            lemma_first_hit_in_range(tv, probe@, 0);
            let j = first_hit(tv, probe@, 0)->Some_0;
            assert(tile_ok(tv[j]));
        }
        r.y = snap_y;
    } else {
        let fall = scale_i64(GRAVITY, dt);
        let y1 = r.y + fall;
        r.y = if y1 > FALL_CAP {
            FALL_CAP
        } else {
            y1
        };
    }
    r
}

} // verus!
