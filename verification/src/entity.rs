//! The moving and collectible things of the simulation: player, monster,
//! coin, plus grid coordinates, logical input and the screen mode.

use vstd::prelude::*;
use crate::geom::{Rect, RectV};

verus! {

/// A cell of the level grid, addressed by column and row; the canonical
/// identity of special blocks and coins.
#[derive(Clone, Copy, PartialEq, Eq, Structural, Debug)]
pub struct GridPos {
    pub col: i64,
    pub row: i64,
}

/// Mathematical shadow of [`GridPos`].
#[verifier::ext_equal]
pub ghost struct PosV {
    pub col: int,
    pub row: int,
}

impl View for GridPos {
    type V = PosV;

    open spec fn view(&self) -> PosV {
        PosV { col: self.col as int, row: self.row as int }
    }
}

/// The player-controlled body.
#[derive(Clone, Copy, PartialEq, Eq, Structural, Debug)]
pub struct Player {
    pub x: i64,
    pub y: i64,
    pub w: i64,
    pub h: i64,
    pub vx: i64,
    pub vy: i64,
    pub on_ground: bool,
}

/// Mathematical shadow of [`Player`].
#[verifier::ext_equal]
pub ghost struct PlayerV {
    pub x: int,
    pub y: int,
    pub w: int,
    pub h: int,
    pub vx: int,
    pub vy: int,
    pub on_ground: bool,
}

impl View for Player {
    type V = PlayerV;

    open spec fn view(&self) -> PlayerV {
        PlayerV {
            x: self.x as int,
            y: self.y as int,
            w: self.w as int,
            h: self.h as int,
            vx: self.vx as int,
            vy: self.vy as int,
            on_ground: self.on_ground,
        }
    }
}

/// The hitbox of a player.
pub open spec fn player_box(p: PlayerV) -> RectV {
    RectV { x: p.x, y: p.y, w: p.w, h: p.h }
}

impl Player {
    /// The hitbox rectangle of the player.
    pub fn rect(&self) -> (r: Rect)
        ensures
            r@ == player_box(self@),
    {
        Rect { x: self.x, y: self.y, w: self.w, h: self.h }
    }
}

/// A patrolling enemy that walks between `range_min` and `range_max`.
#[derive(Clone, Copy, PartialEq, Eq, Structural, Debug)]
pub struct Monster {
    pub x: i64,
    pub y: i64,
    pub w: i64,
    pub h: i64,
    pub vx: i64,
    pub range_min: i64,
    pub range_max: i64,
}

/// Mathematical shadow of [`Monster`].
#[verifier::ext_equal]
pub ghost struct MonsterV {
    pub x: int,
    pub y: int,
    pub w: int,
    pub h: int,
    pub vx: int,
    pub range_min: int,
    pub range_max: int,
}

impl View for Monster {
    type V = MonsterV;

    open spec fn view(&self) -> MonsterV {
        MonsterV {
            x: self.x as int,
            y: self.y as int,
            w: self.w as int,
            h: self.h as int,
            vx: self.vx as int,
            range_min: self.range_min as int,
            range_max: self.range_max as int,
        }
    }
}

/// The hitbox of a monster.
pub open spec fn monster_box(m: MonsterV) -> RectV {
    RectV { x: m.x, y: m.y, w: m.w, h: m.h }
}

impl Monster {
    /// The hitbox rectangle of the monster.
    pub fn rect(&self) -> (r: Rect)
        ensures
            r@ == monster_box(self@),
    {
        Rect { x: self.x, y: self.y, w: self.w, h: self.h }
    }
}

/// A collectible coin: hitbox plus the grid cell it originates from.
#[derive(Clone, Copy, PartialEq, Eq, Structural, Debug)]
pub struct Coin {
    pub rect: Rect,
    pub pos: GridPos,
}

/// Mathematical shadow of [`Coin`].
#[verifier::ext_equal]
pub ghost struct CoinV {
    pub rect: RectV,
    pub pos: PosV,
}

impl View for Coin {
    type V = CoinV;

    open spec fn view(&self) -> CoinV {
        CoinV { rect: self.rect@, pos: self.pos@ }
    }
}

/// Logical input state for one tick; the host maps keys to these.
#[derive(Clone, Copy, PartialEq, Eq, Structural, Debug)]
pub struct Input {
    pub left: bool,
    pub right: bool,
    pub jump: bool,
}

/// The top-level screen mode; only `Playing` runs the simulation.
#[derive(Clone, Copy, PartialEq, Eq, Structural, Debug)]
pub enum Screen {
    Menu,
    Playing,
    GameOver,
    Victory,
}

/// View of a sequence of grid positions.
pub open spec fn pos_view(s: Seq<GridPos>) -> Seq<PosV> {
    s.map_values(|p: GridPos| p@)
}

/// View of a sequence of coins.
pub open spec fn coins_view(s: Seq<Coin>) -> Seq<CoinV> {
    s.map_values(|c: Coin| c@)
}

/// View of a sequence of monsters.
pub open spec fn monsters_view(s: Seq<Monster>) -> Seq<MonsterV> {
    s.map_values(|m: Monster| m@)
}

/// A grid coordinate that lies on the fixed map.
pub open spec fn wf_pos(p: PosV) -> bool {
    0 <= p.col < crate::COLS && 0 <= p.row < crate::ROWS
}

/// A well-formed player: the fixed hitbox size, bounded coordinates, walking
/// speed from the fixed input mapping, vertical speed between the jump
/// launch and the model's terminal speed.
pub open spec fn wf_player(p: PlayerV) -> bool {
    &&& p.w == crate::PLAYER_W
    &&& p.h == crate::PLAYER_H
    &&& -crate::POS_LIM <= p.x <= crate::POS_LIM
    &&& -crate::POS_LIM <= p.y <= crate::POS_LIM
    &&& (p.vx == -crate::MOVE_SPEED || p.vx == 0 || p.vx == crate::MOVE_SPEED)
    &&& crate::JUMP_V <= p.vy <= crate::VY_MAX
}

/// A well-formed monster: fixed size and patrol speed magnitude, bounded
/// coordinates and patrol range.
pub open spec fn wf_monster(m: MonsterV) -> bool {
    &&& m.w == crate::MONSTER_SIZE
    &&& m.h == crate::MONSTER_SIZE
    &&& (m.vx == crate::MONSTER_SPEED || m.vx == -crate::MONSTER_SPEED)
    &&& -crate::COORD_LIM <= m.range_min <= crate::COORD_LIM
    &&& -crate::COORD_LIM <= m.range_max <= crate::COORD_LIM
    &&& -crate::POS_LIM <= m.x <= crate::POS_LIM
    &&& -crate::POS_LIM <= m.y <= crate::FALL_CAP
}

/// A well-formed coin: the fixed hitbox size, bounded position, a grid
/// coordinate on the map.
pub open spec fn wf_coin(c: CoinV) -> bool {
    &&& c.rect.w == crate::COIN_SIZE
    &&& c.rect.h == crate::COIN_SIZE
    &&& -crate::COORD_LIM <= c.rect.x <= crate::COORD_LIM
    &&& -crate::COORD_LIM <= c.rect.y <= crate::COORD_LIM
    &&& wf_pos(c.pos)
}

} // verus!
