//! The renderable scene snapshot: after a tick, the host asks for the list
//! of (rectangle, sprite kind) pairs to draw, in paint order, plus the HUD
//! scalars it reads straight off the state. The core never draws.

use vstd::prelude::*;
use crate::entity::PosV;
use crate::game::{wf, GameState, GameV};
use crate::geom::{overlaps, rect_intersect, Rect, RectV};
use crate::{TILE};

verus! {

/// What to draw at a rectangle.
#[derive(Clone, Copy, PartialEq, Eq, Structural, Debug)]
pub enum Sprite {
    Tile,
    Pipe,
    Player,
    SpecialBlock,
    Coin,
    Monster,
}

/// One drawable of the scene.
#[derive(Clone, Copy, PartialEq, Eq, Structural, Debug)]
pub struct SceneItem {
    pub sprite: Sprite,
    pub rect: Rect,
}

/// Mathematical shadow of [`SceneItem`].
#[verifier::ext_equal]
pub ghost struct SceneItemV {
    pub sprite: Sprite,
    pub rect: RectV,
}

impl View for SceneItem {
    type V = SceneItemV;

    open spec fn view(&self) -> SceneItemV {
        SceneItemV { sprite: self.sprite, rect: self.rect@ }
    }
}

/// View of a sequence of scene items.
pub open spec fn items_view(s: Seq<SceneItem>) -> Seq<SceneItemV> {
    s.map_values(|it: SceneItem| it@)
}

/// The tile drawables among the first `n` tiles: a tile overlapping the
/// pipe keeps its collision but is not painted, so the pipe stays visible.
pub open spec fn tile_items_upto(tiles: Seq<RectV>, pipe: Option<RectV>, n: int) -> Seq<
    SceneItemV,
>
    decreases n,
{
    if n <= 0 {
        Seq::empty()
    } else {
        let pre = tile_items_upto(tiles, pipe, n - 1);
        let skip = match pipe {
            Some(p) => overlaps(tiles[n - 1], p),
            None => false,
        };
        if skip {
            pre
        } else {
            pre.push(SceneItemV { sprite: Sprite::Tile, rect: tiles[n - 1] })
        }
    }
}

/// The pixel box of a special block's grid cell.
pub open spec fn special_box(p: PosV, off: int) -> RectV {
    RectV { x: p.col * TILE, y: off + p.row * TILE, w: TILE as int, h: TILE as int }
}

/// The whole scene of a running game, in paint order: tiles (minus those
/// hidden by the pipe), the pipe, the player, the special blocks, the
/// coins, the monsters.
pub open spec fn scene_spec(g: GameV) -> Seq<SceneItemV> {
    let tiles = tile_items_upto(g.tiles, g.pipe, g.tiles.len() as int);
    let pipe = match g.pipe {
        Some(p) => seq![SceneItemV { sprite: Sprite::Pipe, rect: p }],
        None => Seq::empty(),
    };
    let player = seq![
        SceneItemV {
            sprite: Sprite::Player,
            rect: crate::entity::player_box(g.player),
        },
    ];
    let specials = g.specials.map_values(
        |p: PosV| SceneItemV { sprite: Sprite::SpecialBlock, rect: special_box(p, g.offset_y) },
    );
    let coins = g.coins.map_values(
        |c: crate::entity::CoinV| SceneItemV { sprite: Sprite::Coin, rect: c.rect },
    );
    let monsters = g.monsters.map_values(
        |m: crate::entity::MonsterV|
            SceneItemV { sprite: Sprite::Monster, rect: crate::entity::monster_box(m) },
    );
    tiles + pipe + player + specials + coins + monsters
}

impl GameState {
    /// Builds the frame's draw list; the host paints it in order and reads
    /// the score and screen fields for the HUD.
    pub fn scene(&self) -> (r: Vec<SceneItem>)
        requires
            wf(self@),
        ensures
            items_view(r@) == scene_spec(self@),
    {
        let ghost g = self@;
        let mut r: Vec<SceneItem> = Vec::new();

        let mut i: usize = 0;
        while i < self.tiles.len()
            invariant
                i <= self.tiles.len(),
                g == self@,
                wf(g),
                items_view(r@) == tile_items_upto(g.tiles, g.pipe, i as int),
            decreases self.tiles.len() - i,
        {
            proof {
                assert(crate::level::wf_tile(g.tiles[i as int], g.offset_y));
            }
            let t = self.tiles[i];
            let mut skip: bool = false;
            if let Some(p) = self.pipe {
                skip = rect_intersect(&t, &p);
            }
            if !skip {
                r.push(SceneItem { sprite: Sprite::Tile, rect: t });
            }
            proof {
                assert(items_view(r@) =~= tile_items_upto(g.tiles, g.pipe, i + 1));
            }
            i += 1;
        }
        let ghost seg_tiles = tile_items_upto(g.tiles, g.pipe, g.tiles.len() as int);

        if let Some(p) = self.pipe {
            r.push(SceneItem { sprite: Sprite::Pipe, rect: p });
        }
        r.push(SceneItem { sprite: Sprite::Player, rect: self.player.rect() });
        let ghost seg_head = seg_tiles + (match g.pipe {
            Some(p) => seq![SceneItemV { sprite: Sprite::Pipe, rect: p }],
            None => Seq::<SceneItemV>::empty(),
        }) + seq![
            SceneItemV {
                sprite: Sprite::Player,
                rect: crate::entity::player_box(g.player),
            },
        ];
        proof {
            assert(items_view(r@) =~= seg_head);
        }

        let ghost spec_specials = g.specials.map_values(
            |p: PosV|
                SceneItemV { sprite: Sprite::SpecialBlock, rect: special_box(p, g.offset_y) },
        );
        let mut i: usize = 0;
        while i < self.specials.len()
            invariant
                i <= self.specials.len(),
                g == self@,
                wf(g),
                items_view(r@) == seg_head + spec_specials.take(i as int),
                spec_specials == g.specials.map_values(
                    |p: PosV|
                        SceneItemV {
                            sprite: Sprite::SpecialBlock,
                            rect: special_box(p, g.offset_y),
                        },
                ),
            decreases self.specials.len() - i,
        {
            proof {
                assert(crate::entity::wf_pos(g.specials[i as int]));
            }
            let p = self.specials[i];
            let item = SceneItem {
                sprite: Sprite::SpecialBlock,
                rect: Rect { x: p.col * TILE, y: self.offset_y + p.row * TILE, w: TILE, h: TILE },
            };
            proof {
                assert(item@ == spec_specials[i as int]);
            }
            let ghost rbefore = r@;
            r.push(item);
            proof {
                assert(items_view(r@) =~= items_view(rbefore).push(item@));
                assert(spec_specials.take(i + 1) =~= spec_specials.take(i as int).push(
                    spec_specials[i as int],
                ));
                assert(items_view(r@) =~= seg_head + spec_specials.take(i + 1));
            }
            i += 1;
        }
        let ghost seg_specials = seg_head + spec_specials;
        proof {
            assert(spec_specials.take(g.specials.len() as int) =~= spec_specials);
            assert(items_view(r@) =~= seg_specials);
        }

        let ghost spec_coins = g.coins.map_values(
            |c: crate::entity::CoinV| SceneItemV { sprite: Sprite::Coin, rect: c.rect },
        );
        let mut i: usize = 0;
        while i < self.coins.len()
            invariant
                i <= self.coins.len(),
                g == self@,
                wf(g),
                items_view(r@) == seg_specials + spec_coins.take(i as int),
                spec_coins == g.coins.map_values(
                    |c: crate::entity::CoinV| SceneItemV { sprite: Sprite::Coin, rect: c.rect },
                ),
            decreases self.coins.len() - i,
        {
            let c = self.coins[i];
            let item = SceneItem { sprite: Sprite::Coin, rect: c.rect };
            proof {
                assert(item@ == spec_coins[i as int]);
            }
            let ghost rbefore = r@;
            r.push(item);
            proof {
                assert(items_view(r@) =~= items_view(rbefore).push(item@));
                assert(spec_coins.take(i + 1) =~= spec_coins.take(i as int).push(
                    spec_coins[i as int],
                ));
                assert(items_view(r@) =~= seg_specials + spec_coins.take(i + 1));
            }
            i += 1;
        }
        let ghost seg_coins = seg_specials + spec_coins;
        proof {
            assert(spec_coins.take(g.coins.len() as int) =~= spec_coins);
            assert(items_view(r@) =~= seg_coins);
        }

        let ghost spec_monsters = g.monsters.map_values(
            |m: crate::entity::MonsterV|
                SceneItemV { sprite: Sprite::Monster, rect: crate::entity::monster_box(m) },
        );
        let mut i: usize = 0;
        while i < self.monsters.len()
            invariant
                i <= self.monsters.len(),
                g == self@,
                wf(g),
                items_view(r@) == seg_coins + spec_monsters.take(i as int),
                spec_monsters == g.monsters.map_values(
                    |m: crate::entity::MonsterV|
                        SceneItemV {
                            sprite: Sprite::Monster,
                            rect: crate::entity::monster_box(m),
                        },
                ),
            decreases self.monsters.len() - i,
        {
            let m = self.monsters[i];
            let item = SceneItem { sprite: Sprite::Monster, rect: m.rect() };
            proof {
                assert(item@ == spec_monsters[i as int]);
            }
            let ghost rbefore = r@;
            r.push(item);
            proof {
                assert(items_view(r@) =~= items_view(rbefore).push(item@));
                assert(spec_monsters.take(i + 1) =~= spec_monsters.take(i as int).push(
                    spec_monsters[i as int],
                ));
                assert(items_view(r@) =~= seg_coins + spec_monsters.take(i + 1));
            }
            i += 1;
        }
        proof {
            assert(spec_monsters.take(g.monsters.len() as int) =~= spec_monsters);
            assert(items_view(r@) =~= scene_spec(g));
        }
        r
    }
}

} // verus!
