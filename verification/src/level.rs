//! The fixed level grid: parsing the character map into solid-tile
//! rectangles, special (bonus) block coordinates, the goal pipe and the
//! patrolling monster's spawn.
//!
//! The map, 7 rows by 28 columns (`#` solid, `P` pipe anchor, `.` empty):
//!
//! ```text
//! ............................
//! ............................
//! ............................
//! ...........##...............
//! ..................##........
//! ......##....................
//! #######################P####
//! ```
//!
//! Special blocks sit at grid cells (8,2) and (15,2).

use vstd::prelude::*;
use crate::entity::{GridPos, Monster, MonsterV, PosV};
use crate::geom::{Rect, RectV};
use crate::{COLS, MONSTER_SIZE, MONSTER_SPEED, PATROL_HALF, PIPE_CAP_H, PIPE_H, ROWS, SCALE,
    TILE, WIN_MAX};

verus! {

/// Map byte of a solid tile, `'#'`.
pub const SOLID: u8 = 35;
/// Map byte of the pipe anchor, `'P'`: a solid tile that also places the
/// goal pipe directly above itself.
pub const PIPE_MARK: u8 = 80;
/// Map byte of an empty cell, `'.'`.
pub const EMPTY_MARK: u8 = 46;

/// The character at one cell of the fixed map drawn above; cells outside the
/// grid read as empty.
pub open spec fn map_byte(col: int, row: int) -> u8 {
    if 0 <= col < COLS && 0 <= row < ROWS {
        if row == 6 {
            if col == 23 {
                PIPE_MARK
            } else {
                SOLID
            }
        } else if row == 3 && (col == 11 || col == 12) {
            SOLID
        } else if row == 4 && (col == 18 || col == 19) {
            SOLID
        } else if row == 5 && (col == 6 || col == 7) {
            SOLID
        } else {
            EMPTY_MARK
        }
    } else {
        EMPTY_MARK
    }
}

/// Executable twin of [`map_byte`].
pub fn map_byte_at(col: usize, row: usize) -> (b: u8)
    ensures
        b == map_byte(col as int, row as int),
{
    if col < COLS && row < ROWS {
        if row == 6 {
            if col == 23 {
                PIPE_MARK
            } else {
                SOLID
            }
        } else if row == 3 && (col == 11 || col == 12) {
            SOLID
        } else if row == 4 && (col == 18 || col == 19) {
            SOLID
        } else if row == 5 && (col == 6 || col == 7) {
            SOLID
        } else {
            EMPTY_MARK
        }
    } else {
        EMPTY_MARK
    }
}

/// The solid tile box of a grid cell, given the level's vertical offset.
pub open spec fn tile_box(col: int, row: int, off: int) -> RectV {
    RectV { x: col * TILE, y: off + row * TILE, w: TILE as int, h: TILE as int }
}

/// The goal pipe box placed directly above a pipe-anchor cell.
pub open spec fn pipe_box(col: int, row: int, off: int) -> RectV {
    RectV { x: col * TILE, y: off + row * TILE - PIPE_H, w: TILE as int, h: PIPE_H as int }
}

/// The thin standable collision cap at the pipe's top edge.
pub open spec fn cap_box(col: int, row: int, off: int) -> RectV {
    RectV { x: col * TILE, y: off + row * TILE - PIPE_H, w: TILE as int, h: PIPE_CAP_H as int }
}

/// The collision boxes contributed by one cell, in parse order: a solid cell
/// yields its tile; a pipe anchor yields its tile then the pipe cap.
pub open spec fn cell_tiles(col: int, row: int, off: int) -> Seq<RectV> {
    if map_byte(col, row) == SOLID {
        seq![tile_box(col, row, off)]
    } else if map_byte(col, row) == PIPE_MARK {
        seq![tile_box(col, row, off), cap_box(col, row, off)]
    } else {
        Seq::empty()
    }
}

/// Boxes of the first `ncol` cells of `row`, in column order.
pub open spec fn row_tiles_upto(row: int, ncol: int, off: int) -> Seq<RectV>
    decreases ncol,
{
    if ncol <= 0 {
        Seq::empty()
    } else {
        row_tiles_upto(row, ncol - 1, off) + cell_tiles(ncol - 1, row, off)
    }
}

/// Boxes of the first `nrow` full rows, top to bottom.
pub open spec fn rows_tiles_upto(nrow: int, off: int) -> Seq<RectV>
    decreases nrow,
{
    if nrow <= 0 {
        Seq::empty()
    } else {
        rows_tiles_upto(nrow - 1, off) + row_tiles_upto(nrow - 1, COLS as int, off)
    }
}

/// Grid coordinates of the special (bonus) blocks.
pub open spec fn specials_spec() -> Seq<PosV> {
    seq![PosV { col: 8, row: 2 }, PosV { col: 15, row: 2 }]
}

/// Every collision box of the level: the parsed map followed by the special
/// blocks, which are solid as well.
pub open spec fn level_tiles(off: int) -> Seq<RectV> {
    rows_tiles_upto(ROWS as int, off) + seq![tile_box(8, 2, off), tile_box(15, 2, off)]
}

/// Pipe placement after scanning the first `ncol` cells of `row`; a later
/// anchor replaces an earlier one.
pub open spec fn row_pipe_upto(prev: Option<RectV>, row: int, ncol: int, off: int) -> Option<
    RectV,
>
    decreases ncol,
{
    if ncol <= 0 {
        prev
    } else {
        let before = row_pipe_upto(prev, row, ncol - 1, off);
        if map_byte(ncol - 1, row) == PIPE_MARK {
            Some(pipe_box(ncol - 1, row, off))
        } else {
            before
        }
    }
}

/// Pipe placement after scanning the first `nrow` full rows.
pub open spec fn rows_pipe_upto(nrow: int, off: int) -> Option<RectV>
    decreases nrow,
{
    if nrow <= 0 {
        None
    } else {
        row_pipe_upto(rows_pipe_upto(nrow - 1, off), nrow - 1, COLS as int, off)
    }
}

/// The pipe box named by the map's anchor, if any.
pub open spec fn parsed_pipe(off: int) -> Option<RectV> {
    rows_pipe_upto(ROWS as int, off)
}

/// Tiles whose top lies at or below `cutoff`, in parse order: the ground row
/// the monster patrols and coins spawn on.
pub open spec fn ground_upto(tiles: Seq<RectV>, cutoff: int, n: int) -> Seq<RectV>
    decreases n,
{
    if n <= 0 {
        Seq::empty()
    } else {
        let pre = ground_upto(tiles, cutoff, n - 1);
        if tiles[n - 1].y >= cutoff {
            pre.push(tiles[n - 1])
        } else {
            pre
        }
    }
}

/// All ground tiles of `tiles` under the cutoff rule.
pub open spec fn ground_tiles(tiles: Seq<RectV>, cutoff: int) -> Seq<RectV> {
    ground_upto(tiles, cutoff, tiles.len() as int)
}

/// The cutoff below which a tile counts as ground when the level is rebuilt:
/// one sub-pixel above the top of the bottom row.
pub open spec fn build_cutoff(off: int) -> int {
    off + (ROWS - 1) * TILE - SCALE
}

/// The monster spawned over a run of ground tiles: centered on the middle
/// tile, patrol half-width of three tiles clamped to the run's span. An
/// empty run spawns nothing.
pub open spec fn monster_for_ground(g: Seq<RectV>) -> Option<MonsterV> {
    if g.len() == 0 {
        None
    } else {
        let mid = g[g.len() as int / 2];
        let center = mid.x + TILE / 2;
        let first = g[0].x;
        let last = g[g.len() - 1].x + TILE;
        let lo = if center - PATROL_HALF < first {
            first
        } else {
            center - PATROL_HALF
        };
        let hi = if center + PATROL_HALF > last {
            last
        } else {
            center + PATROL_HALF
        };
        Some(
            MonsterV {
                x: center - MONSTER_SIZE / 2,
                y: mid.y - MONSTER_SIZE,
                w: MONSTER_SIZE as int,
                h: MONSTER_SIZE as int,
                vx: MONSTER_SPEED as int,
                range_min: lo,
                range_max: hi,
            },
        )
    }
}

/// The monsters of a fresh level.
pub open spec fn level_monsters(off: int) -> Seq<MonsterV> {
    match monster_for_ground(ground_tiles(level_tiles(off), build_cutoff(off))) {
        Some(m) => seq![m],
        None => Seq::empty(),
    }
}

/// The goal pipe of a fresh level: the map's anchor if it names one, else a
/// fallback over the rightmost ground tile, else none.
pub open spec fn level_pipe(off: int) -> Option<RectV> {
    match parsed_pipe(off) {
        Some(p) => Some(p),
        None => {
            let g = ground_tiles(level_tiles(off), build_cutoff(off));
            if g.len() == 0 {
                None
            } else {
                let last = g[g.len() - 1];
                Some(RectV { x: last.x, y: last.y - PIPE_H, w: TILE as int, h: PIPE_H as int })
            }
        },
    }
}

/// A well-formed level collision box: tile-sized (or the thin pipe cap),
/// horizontally on the grid, vertically within the level's rows.
pub open spec fn wf_tile(t: RectV, off: int) -> bool {
    &&& 0 <= t.x <= (COLS - 1) * TILE
    &&& 0 <= t.y - off <= (ROWS - 1) * TILE
    &&& t.w == TILE
    &&& (t.h == TILE || t.h == PIPE_CAP_H)
}

/// Bounds of a level box independent of the level offset; what the collision
/// arithmetic needs of a tile.
pub open spec fn tile_ok(t: RectV) -> bool {
    &&& 0 <= t.x <= (COLS - 1) * TILE
    &&& t.w == TILE
    &&& (t.h == TILE || t.h == PIPE_CAP_H)
    &&& crate::OFF_MIN <= t.y <= WIN_MAX + (ROWS - 1) * TILE
}

/// A tile well formed for an in-range offset is within the absolute bounds.
pub proof fn lemma_wf_tile_ok(t: RectV, off: int)
    requires
        wf_tile(t, off),
        crate::OFF_MIN <= off <= WIN_MAX,
    ensures
        tile_ok(t),
{
}

/// A well-formed goal pipe: pipe-sized, on the grid, its base on the bottom
/// row (the fallback pipe may sit up to one sub-pixel higher).
pub open spec fn wf_pipe(p: RectV, off: int) -> bool {
    &&& 0 <= p.x <= (COLS - 1) * TILE
    &&& (ROWS - 1) * TILE - PIPE_H - SCALE <= p.y - off <= (ROWS - 1) * TILE - PIPE_H
    &&& p.w == TILE
    &&& p.h == PIPE_H
}

/// Everything the row parse emits is a well-formed level box.
pub proof fn lemma_row_tiles_wf(row: int, ncol: int, off: int)
    requires
        ncol <= COLS,
    ensures
        forall|i: int|
            0 <= i < row_tiles_upto(row, ncol, off).len() ==> wf_tile(
                #[trigger] row_tiles_upto(row, ncol, off)[i],
                off,
            ),
    decreases ncol,
{
    if ncol > 0 {
        lemma_row_tiles_wf(row, ncol - 1, off);
        let c = ncol - 1;
        let s = row_tiles_upto(row, ncol, off);
        let pre = row_tiles_upto(row, ncol - 1, off);
        let cell = cell_tiles(c, row, off);
        assert(TILE == 32000 && COLS == 28 && ROWS == 7);
        assert forall|i: int| 0 <= i < s.len() implies wf_tile(s[i], off) by {
            if i < pre.len() {
                assert(s[i] == pre[i]);
            } else {
                assert(s[i] == cell[i - pre.len()]);
                if map_byte(c, row) == SOLID || map_byte(c, row) == PIPE_MARK {
                    assert(0 <= c <= 27 && 0 <= row <= 6);
                    assert(0 <= c * 32000 <= 27 * 32000);
                    assert(0 <= row * 32000 <= 6 * 32000);
                    assert(wf_tile(tile_box(c, row, off), off));
                    if map_byte(c, row) == PIPE_MARK {
                        assert(c == 23 && row == 6);
                        assert(wf_tile(cap_box(c, row, off), off));
                    }
                }
            }
        }
    }
}

/// Everything the map parse emits is a well-formed level box.
pub proof fn lemma_rows_tiles_wf(nrow: int, off: int)
    requires
        nrow <= ROWS,
    ensures
        forall|i: int|
            0 <= i < rows_tiles_upto(nrow, off).len() ==> wf_tile(
                #[trigger] rows_tiles_upto(nrow, off)[i],
                off,
            ),
    decreases nrow,
{
    if nrow > 0 {
        lemma_rows_tiles_wf(nrow - 1, off);
        lemma_row_tiles_wf(nrow - 1, COLS as int, off);
        let s = rows_tiles_upto(nrow, off);
        let pre = rows_tiles_upto(nrow - 1, off);
        let last = row_tiles_upto(nrow - 1, COLS as int, off);
        assert forall|i: int| 0 <= i < s.len() implies wf_tile(s[i], off) by {
            if i < pre.len() {
                assert(s[i] == pre[i]);
            } else {
                assert(s[i] == last[i - pre.len()]);
            }
        }
    }
}

/// Every collision box of the level is well formed.
pub proof fn lemma_level_tiles_wf(off: int)
    ensures
        forall|i: int|
            0 <= i < level_tiles(off).len() ==> wf_tile(#[trigger] level_tiles(off)[i], off),
{
    lemma_rows_tiles_wf(ROWS as int, off);
}

/// A pipe found by the row scan is the map's single anchor pipe.
pub proof fn lemma_row_pipe_placed(prev: Option<RectV>, row: int, ncol: int, off: int)
    requires
        match prev {
            Some(p) => p == pipe_box(23, 6, off),
            None => true,
        },
    ensures
        match row_pipe_upto(prev, row, ncol, off) {
            Some(p) => p == pipe_box(23, 6, off),
            None => true,
        },
    decreases ncol,
{
    if ncol > 0 {
        lemma_row_pipe_placed(prev, row, ncol - 1, off);
    }
}

/// A pipe found by the map scan is the map's single anchor pipe.
pub proof fn lemma_rows_pipe_placed(nrow: int, off: int)
    ensures
        match rows_pipe_upto(nrow, off) {
            Some(p) => p == pipe_box(23, 6, off),
            None => true,
        },
    decreases nrow,
{
    if nrow > 0 {
        lemma_rows_pipe_placed(nrow - 1, off);
        lemma_row_pipe_placed(rows_pipe_upto(nrow - 1, off), nrow - 1, COLS as int, off);
    }
}

/// Ground tiles keep the well-formedness of the tile list they were filtered
/// from, and all lie at or below the cutoff.
pub proof fn lemma_ground_props(tiles: Seq<RectV>, cutoff: int, n: int, off: int)
    requires
        n <= tiles.len(),
        forall|i: int| 0 <= i < tiles.len() ==> wf_tile(#[trigger] tiles[i], off),
    ensures
        forall|j: int|
            0 <= j < ground_upto(tiles, cutoff, n).len() ==> wf_tile(
                #[trigger] ground_upto(tiles, cutoff, n)[j],
                off,
            ) && ground_upto(tiles, cutoff, n)[j].y >= cutoff,
    decreases n,
{
    if n > 0 {
        lemma_ground_props(tiles, cutoff, n - 1, off);
        let s = ground_upto(tiles, cutoff, n);
        let pre = ground_upto(tiles, cutoff, n - 1);
        assert forall|j: int|
            0 <= j < s.len() implies wf_tile(s[j], off) && s[j].y >= cutoff by {
            if j < pre.len() {
                assert(s[j] == pre[j]);
            } else {
                assert(s[j] == tiles[n - 1]);
            }
        }
    }
}

/// The pipe of a fresh level, if there is one, is well formed.
pub proof fn lemma_level_pipe_wf(off: int)
    ensures
        match level_pipe(off) {
            Some(p) => wf_pipe(p, off),
            None => true,
        },
{
    lemma_rows_pipe_placed(ROWS as int, off);
    if parsed_pipe(off) is None {
        lemma_level_tiles_wf(off);
        let tiles = level_tiles(off);
        lemma_ground_props(tiles, build_cutoff(off), tiles.len() as int, off);
    }
}

/// Every monster of a fresh level is well formed.
pub proof fn lemma_level_monsters_wf(off: int)
    requires
        crate::OFF_MIN <= off <= WIN_MAX,
    ensures
        forall|i: int|
            0 <= i < level_monsters(off).len() ==> crate::entity::wf_monster(
                #[trigger] level_monsters(off)[i],
            ),
{
    lemma_level_tiles_wf(off);
    let tiles = level_tiles(off);
    lemma_ground_props(tiles, build_cutoff(off), tiles.len() as int, off);
}

/// The built geometry of a fresh level: collision boxes, special blocks,
/// goal pipe and monsters.
pub struct LevelParts {
    pub tiles: Vec<Rect>,
    pub specials: Vec<GridPos>,
    pub pipe: Option<Rect>,
    pub monsters: Vec<Monster>,
}

/// Collects the tiles whose top lies at or below `cutoff`, in order.
pub fn ground_vec(tiles: &Vec<Rect>, cutoff: i64) -> (g: Vec<Rect>)
    ensures
        crate::geom::rects_view(g@) == ground_tiles(crate::geom::rects_view(tiles@), cutoff as int),
{
    let ghost tv = crate::geom::rects_view(tiles@);
    let mut g: Vec<Rect> = Vec::new();
    let mut i: usize = 0;
    while i < tiles.len()
        invariant
            i <= tiles.len(),
            tv == crate::geom::rects_view(tiles@),
            crate::geom::rects_view(g@) == ground_upto(tv, cutoff as int, i as int),
        decreases tiles.len() - i,
    {
        if tiles[i].y >= cutoff {
            g.push(tiles[i]);
        }
        proof {
            assert(crate::geom::rects_view(g@) =~= ground_upto(tv, cutoff as int, i + 1));
        }
        i += 1;
    }
    g
}

/// Parses the fixed map into the level geometry: solid tiles in row-major
/// parse order (a pipe anchor also emits its standable cap), then the
/// special blocks, which are solid too; the goal pipe comes from the anchor
/// or, failing that, is placed over the rightmost ground tile; one monster
/// patrols the middle of the ground run. Rebuilding with the same offset
/// yields the same level every time.
pub fn build_level(off: i64) -> (r: LevelParts)
    requires
        crate::OFF_MIN <= off <= WIN_MAX,
    ensures
        crate::geom::rects_view(r.tiles@) == level_tiles(off as int),
        crate::entity::pos_view(r.specials@) == specials_spec(),
        crate::geom::opt_rect_view(r.pipe) == level_pipe(off as int),
        crate::entity::monsters_view(r.monsters@) == level_monsters(off as int),
{
    let mut tiles: Vec<Rect> = Vec::new();
    let mut pipe: Option<Rect> = None;
    let mut row: usize = 0;
    while row < ROWS
        invariant
            row <= ROWS,
            crate::OFF_MIN <= off <= WIN_MAX,
            crate::geom::rects_view(tiles@) == rows_tiles_upto(row as int, off as int),
            crate::geom::opt_rect_view(pipe) == rows_pipe_upto(row as int, off as int),
        decreases ROWS - row,
    {
        let mut col: usize = 0;
        while col < COLS
            invariant
                row < ROWS,
                col <= COLS,
                crate::OFF_MIN <= off <= WIN_MAX,
                crate::geom::rects_view(tiles@) == rows_tiles_upto(row as int, off as int)
                    + row_tiles_upto(row as int, col as int, off as int),
                crate::geom::opt_rect_view(pipe) == row_pipe_upto(
                    rows_pipe_upto(row as int, off as int),
                    row as int,
                    col as int,
                    off as int,
                ),
            decreases COLS - col,
        {
            let ghost before = tiles@;
            let b = map_byte_at(col, row);
            if b == SOLID || b == PIPE_MARK {
                let y: i64 = off + (row as i64) * TILE;
                tiles.push(Rect::new((col as i64) * TILE, y, TILE, TILE));
                if b == PIPE_MARK {
                    let py: i64 = y - PIPE_H;
                    pipe = Some(Rect::new((col as i64) * TILE, py, TILE, PIPE_H));
                    tiles.push(Rect::new((col as i64) * TILE, py, TILE, PIPE_CAP_H));
                }
            }
            proof {
                let c = col as int;
                let r = row as int;
                let o = off as int;
                if b == SOLID {
                    assert(crate::geom::rects_view(tiles@) =~= crate::geom::rects_view(
                        before,
                    ).push(tile_box(c, r, o)));
                    assert(cell_tiles(c, r, o) =~= seq![tile_box(c, r, o)]);
                } else if b == PIPE_MARK {
                    assert(crate::geom::rects_view(tiles@) =~= crate::geom::rects_view(
                        before,
                    ).push(tile_box(c, r, o)).push(cap_box(c, r, o)));
                    assert(cell_tiles(c, r, o) =~= seq![tile_box(c, r, o), cap_box(c, r, o)]);
                } else {
                    assert(cell_tiles(c, r, o) =~= Seq::empty());
                }
                assert(row_tiles_upto(r, c + 1, o) == row_tiles_upto(r, c, o) + cell_tiles(
                    c,
                    r,
                    o,
                ));
                assert(crate::geom::rects_view(tiles@) =~= rows_tiles_upto(r, o)
                    + row_tiles_upto(r, c + 1, o));
            }
            col += 1;
        }
        proof {
            assert(crate::geom::rects_view(tiles@) =~= rows_tiles_upto(row + 1, off as int));
        }
        row += 1;
    }

    let mut specials: Vec<GridPos> = Vec::new();
    tiles.push(Rect::new(8 * TILE, off + 2 * TILE, TILE, TILE));
    specials.push(GridPos { col: 8, row: 2 });
    tiles.push(Rect::new(15 * TILE, off + 2 * TILE, TILE, TILE));
    specials.push(GridPos { col: 15, row: 2 });
    proof {
        assert(crate::geom::rects_view(tiles@) =~= level_tiles(off as int));
        assert(crate::entity::pos_view(specials@) =~= specials_spec());
    }

    let cutoff: i64 = off + (ROWS as i64 - 1) * TILE - SCALE;
    let ground = ground_vec(&tiles, cutoff);
    let ghost gv = ground_tiles(level_tiles(off as int), build_cutoff(off as int));
    proof {
        lemma_level_tiles_wf(off as int);
        lemma_ground_props(
            level_tiles(off as int),
            cutoff as int,
            level_tiles(off as int).len() as int,
            off as int,
        );
        assert(crate::geom::rects_view(ground@) == gv);
    }

    if pipe.is_none() && ground.len() > 0 {
        proof {
            assert(wf_tile(gv[gv.len() - 1], off as int));
        }
        let last = ground[ground.len() - 1];
        pipe = Some(Rect::new(last.x, last.y - PIPE_H, TILE, PIPE_H));
    }

    let mut monsters: Vec<Monster> = Vec::new();
    if ground.len() > 0 {
        let idx: usize = ground.len() / 2;
        proof {
            assert(idx < ground.len()) by (nonlinear_arith)
                requires idx == ground@.len() / 2, ground@.len() >= 1;
            assert(wf_tile(gv[idx as int], off as int));
            assert(wf_tile(gv[0], off as int));
            assert(wf_tile(gv[gv.len() - 1], off as int));
        }
        let mid = ground[idx];
        let center: i64 = mid.x + 16_000;
        let first: i64 = ground[0].x;
        let last_x: i64 = ground[ground.len() - 1].x + TILE;
        let mut range_min: i64 = center - PATROL_HALF;
        let mut range_max: i64 = center + PATROL_HALF;
        if range_min < first {
            range_min = first;
        }
        if range_max > last_x {
            range_max = last_x;
        }
        monsters.push(
            Monster {
                x: center - 12_000,
                y: mid.y - MONSTER_SIZE,
                w: MONSTER_SIZE,
                h: MONSTER_SIZE,
                vx: MONSTER_SPEED,
                range_min,
                range_max,
            },
        );
    }
    proof {
        assert(crate::entity::monsters_view(monsters@) =~= level_monsters(off as int));
    }

    LevelParts { tiles, specials, pipe, monsters }
}

} // verus!
