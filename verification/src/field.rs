//! The field of obstacles: rows that span the playing field from edge to
//! edge, laid out from random widths.

use vstd::prelude::*;
use crate::config::Config;
use crate::geometry::{Rect, Size, Vec2};
use crate::obstacle::{all_intact, outlines, Obstacle};
use crate::random::draw_many;
use rand::thread_rng;

verus! {

/// The width of the obstacle placed at `cursor` when `draw` was drawn for it.
/// The wish is `min_width + draw`. If the wish would leave less than
/// `min_width` before the right edge of the field, the obstacle takes all
/// that is left of the row instead.
pub open spec fn fitted_width(cfg: Config, cursor: int, draw: int) -> int {
    let wish: int = cfg.min_width + draw;
    if cursor + wish + cfg.min_width > cfg.field_width {
        cfg.field_width - cursor
    } else {
        wish
    }
}

/// The intact obstacle of the given row that starts at `cursor` and is `width` wide.
pub open spec fn brick_at(cfg: Config, row: u8, cursor: int, width: int) -> Obstacle {
    Obstacle {
        pos: Vec2 { x: cursor as i32, y: cfg.row_top(row as int) as i32 },
        size: Size { width: width as u16, height: cfg.brick_height },
        hit: false,
    }
}

/// The obstacles of a row from `cursor` on, one for each draw in turn, until
/// the cursor has reached the right edge of the field or the draws have run
/// out. After each obstacle the cursor moves on by its width and the gap.
pub open spec fn laid_row(cfg: Config, row: u8, cursor: int, draws: Seq<u16>) -> Seq<Obstacle>
    decreases draws.len(),
{
    if cursor >= cfg.field_width || draws.len() == 0 {
        Seq::empty()
    } else {
        let width: int = fitted_width(cfg, cursor, draws[0] as int);
        seq![brick_at(cfg, row, cursor, width)] + laid_row(
            cfg,
            row,
            cursor + width + cfg.brick_gap,
            draws.drop_first(),
        )
    }
}

/// The number of draws that is always enough to lay out one row.
pub open spec fn row_capacity(cfg: Config) -> int {
    (cfg.field_width as int) / (cfg.min_width + cfg.brick_gap) + 1
}

/// The rectangles tile a row of the field from `start` on: the first begins
/// at `start`, each next one begins one gap after the one before it ends, and
/// the last ends at the right edge of the field. All have the row's top and
/// height and are at least 1 wide. All but the last have a width in
/// `min_width .. min_width + width_range` and leave room for `min_width`
/// more before the right edge; the last is narrower than the widest wish and
/// `min_width` together.
pub open spec fn tiles_from(rects: Seq<Rect>, cfg: Config, row: int, start: int) -> bool {
    &&& rects.len() >= 1
    &&& rects[0].x == start
    &&& rects.last().x + rects.last().w == cfg.field_width
    &&& rects.last().w < 2 * cfg.min_width + cfg.width_range
    &&& forall|i: int|
        0 <= i < rects.len() ==> {
            &&& (#[trigger] rects[i]).y == cfg.row_top(row)
            &&& rects[i].h == cfg.brick_height
            &&& rects[i].w >= 1
        }
    &&& forall|i: int|
        0 <= i < rects.len() - 1 ==> {
            &&& cfg.min_width <= (#[trigger] rects[i]).w < cfg.min_width + cfg.width_range
            &&& rects[i].x + rects[i].w + cfg.min_width <= cfg.field_width
        }
    &&& forall|i: int, j: int|
        0 <= i && j == i + 1 && j < rects.len() ==> (#[trigger] rects[j]).x == (
        #[trigger] rects[i]).x + rects[i].w + cfg.brick_gap
}

/// The rectangles tile a whole row of the field, from its left edge to its
/// right edge.
pub open spec fn tiles_row(rects: Seq<Rect>, cfg: Config, row: int) -> bool {
    tiles_from(rects, cfg, row, 0)
}

/// There is one sequence of rectangles for each row of the configuration, and
/// each tiles its row.
pub open spec fn rows_tile(rows: Seq<Seq<Rect>>, cfg: Config) -> bool {
    &&& rows.len() == cfg.rows
    &&& forall|r: int| 0 <= r < rows.len() ==> tiles_row(#[trigger] rows[r], cfg, r)
}

/// The rectangles are a field of obstacles for the configuration: row after
/// row, from the top one down, each row tiling the width of the field.
pub open spec fn is_layout(rects: Seq<Rect>, cfg: Config) -> bool {
    exists|rows: Seq<Seq<Rect>>| #[trigger] rows_tile(rows, cfg) && rows.flatten() == rects
}

/// The rectangle at index `i`, together with the gap to its right, holds the
/// point `p` of the row.
pub open spec fn holds_point(rects: Seq<Rect>, cfg: Config, i: int, p: int) -> bool {
    0 <= i < rects.len() && rects[i].x <= p < rects[i].x + rects[i].w + cfg.brick_gap
}

/// Some rectangle of the row, together with the gap to its right, holds the
/// point `p`.
pub open spec fn held(rects: Seq<Rect>, cfg: Config, p: int) -> bool {
    exists|i: int| #[trigger] holds_point(rects, cfg, i, p)
}

/// Chooses the width of the obstacle to place at `cursor` from a draw.
pub fn fit_width(cfg: &Config, cursor: u16, draw: u16) -> (width: u16)
    requires
        cursor < cfg.field_width,
    ensures
        width == fitted_width(*cfg, cursor as int, draw as int),
{
    let wish: u32 = cfg.min_width as u32 + draw as u32;
    if cursor as u32 + wish + cfg.min_width as u32 > cfg.field_width as u32 {
        cfg.field_width - cursor
    } else {
        wish as u16
    }
}

/// Makes the intact obstacle of the given row that starts at `cursor`.
pub fn place(cfg: &Config, row: u8, cursor: u16, width: u16) -> (brick: Obstacle)
    ensures
        brick == brick_at(*cfg, row, cursor as int, width as int),
        brick.pos.x == cursor,
        brick.pos.y == cfg.row_top(row as int),
{
    let pitch: i32 = cfg.brick_height as i32 + cfg.row_spacing as i32;
    assert(0 <= (row as int) * (pitch as int) <= 255 * 131070) by (nonlinear_arith)
        requires
            0 <= row <= 255,
            0 <= pitch <= 131070,
    ;
    let top: i32 = (row as i32) * pitch;
    Obstacle {
        pos: Vec2 { x: cursor as i32, y: top },
        size: Size { width, height: cfg.brick_height },
        hit: false,
    }
}

/// Lays out one row of obstacles from the given draws, taken in order.
pub fn lay_row(cfg: &Config, row: u8, draws: &Vec<u16>) -> (bricks: Vec<Obstacle>)
    ensures
        bricks@ == laid_row(*cfg, row, 0, draws@),
{
    let mut bricks: Vec<Obstacle> = Vec::new();
    let mut cursor: u32 = 0;
    let mut used: usize = 0;
    proof {
        assert(draws@.skip(0) =~= draws@);
        assert(bricks@ + laid_row(*cfg, row, 0, draws@) =~= laid_row(*cfg, row, 0, draws@));
    }
    while cursor < cfg.field_width as u32 && used < draws.len()
        invariant
            used <= draws.len(),
            cursor <= 131070,
            laid_row(*cfg, row, 0, draws@) == bricks@ + laid_row(
                *cfg,
                row,
                cursor as int,
                draws@.skip(used as int),
            ),
        decreases draws.len() - used,
    {
        let ghost rest: Seq<u16> = draws@.skip(used as int);
        let ghost before: Seq<Obstacle> = bricks@;
        let width: u16 = fit_width(cfg, cursor as u16, draws[used]);
        let brick: Obstacle = place(cfg, row, cursor as u16, width);
        bricks.push(brick);
        proof {
            assert(rest.drop_first() =~= draws@.skip(used + 1));
            let tail: Seq<Obstacle> = laid_row(
                *cfg,
                row,
                cursor + width + cfg.brick_gap,
                draws@.skip(used + 1),
            );
            assert(before + (seq![brick] + tail) =~= before.push(brick) + tail);
        }
        cursor = cursor + width as u32 + cfg.brick_gap as u32;
        used = used + 1;
    }
    proof {
        assert(laid_row(*cfg, row, cursor as int, draws@.skip(used as int)) =~= Seq::<
            Obstacle,
        >::empty());
    }
    bricks
}

/// With a valid configuration, a row laid out from `cursor` tiles the field
/// from `cursor` on and is intact, if every draw is below `width_range` and
/// there are enough draws for the part of the row from `cursor` on.
pub proof fn lemma_laid_row_tiles_from(cfg: Config, row: u8, cursor: int, draws: Seq<u16>)
    requires
        cfg.valid(),
        0 <= cursor < cfg.field_width,
        draws.len() >= (cfg.field_width - cursor) / (cfg.min_width + cfg.brick_gap) + 1,
        forall|i: int| 0 <= i < draws.len() ==> draws[i] < cfg.width_range,
    ensures
        tiles_from(outlines(laid_row(cfg, row, cursor, draws)), cfg, row as int, cursor),
        all_intact(laid_row(cfg, row, cursor, draws)),
    decreases draws.len(),
{
    let pitch: int = cfg.min_width + cfg.brick_gap;
    let left: int = cfg.field_width - cursor;
    assert(left / pitch >= 0) by (nonlinear_arith)
        requires
            left >= 0,
            pitch > 0,
    ;
    let width: int = fitted_width(cfg, cursor, draws[0] as int);
    let brick: Obstacle = brick_at(cfg, row, cursor, width);
    let next: int = cursor + width + cfg.brick_gap;
    let tail: Seq<Obstacle> = laid_row(cfg, row, next, draws.drop_first());
    let all: Seq<Obstacle> = laid_row(cfg, row, cursor, draws);
    assert(0 <= (row as int) * cfg.row_pitch() <= 255 * 131070) by (nonlinear_arith)
        requires
            0 <= row <= 255,
            0 <= cfg.row_pitch() <= 131070,
    ;
    assert(brick.rect() == Rect {
        x: cursor,
        y: cfg.row_top(row as int),
        w: width,
        h: cfg.brick_height as int,
    });
    let rects: Seq<Rect> = outlines(all);
    if cursor + cfg.min_width + draws[0] + cfg.min_width > cfg.field_width {
        assert(tail =~= Seq::<Obstacle>::empty());
        assert(rects =~= seq![brick.rect()]);
    } else {
        assert((left - pitch) / pitch == left / pitch - 1) by (nonlinear_arith)
            requires
                pitch > 0,
        ;
        assert((cfg.field_width - next) / pitch <= (left - pitch) / pitch) by (nonlinear_arith)
            requires
                pitch > 0,
                cfg.field_width - next <= left - pitch,
        ;
        lemma_laid_row_tiles_from(cfg, row, next, draws.drop_first());
        let rest: Seq<Rect> = outlines(tail);
        assert(rects =~= seq![brick.rect()] + rest);
        assert forall|i: int| 0 <= i < rects.len() implies {
            &&& (#[trigger] rects[i]).y == cfg.row_top(row as int)
            &&& rects[i].h == cfg.brick_height
            &&& rects[i].w >= 1
        } by {
            if i > 0 {
                assert(rects[i] == rest[i - 1]);
            }
        }
        assert forall|i: int| 0 <= i < rects.len() - 1 implies {
            &&& cfg.min_width <= (#[trigger] rects[i]).w < cfg.min_width + cfg.width_range
            &&& rects[i].x + rects[i].w + cfg.min_width <= cfg.field_width
        } by {
            if i > 0 {
                assert(rects[i] == rest[i - 1]);
            }
        }
        assert forall|i: int, j: int| 0 <= i && j == i + 1 && j < rects.len() implies (
        #[trigger] rects[j]).x == (#[trigger] rects[i]).x + rects[i].w + cfg.brick_gap by {
            assert(rects[j] == rest[j - 1]);
            if i > 0 {
                assert(rects[i] == rest[i - 1]);
            }
        }
    }
    assert forall|i: int| 0 <= i < all.len() implies !(#[trigger] all[i]).hit by {
        if i > 0 {
            assert(all[i] == tail[i - 1]);
        }
    }
}

/// In a row that tiles the field, the rectangle at index `i` begins at least
/// `i` to the right of the first.
pub proof fn lemma_row_begins(rects: Seq<Rect>, cfg: Config, row: int, start: int, i: int)
    requires
        tiles_from(rects, cfg, row, start),
        0 <= i < rects.len(),
    ensures
        rects[i].x >= start + i,
    decreases i,
{
    if i > 0 {
        lemma_row_begins(rects, cfg, row, start, i - 1);
        assert(rects[i].x == rects[i - 1].x + rects[i - 1].w + cfg.brick_gap);
    }
}

/// In a row that tiles the field, a later rectangle begins at least one gap
/// after an earlier one ends.
pub proof fn lemma_row_ordered(rects: Seq<Rect>, cfg: Config, row: int, start: int, i: int, j: int)
    requires
        tiles_from(rects, cfg, row, start),
        0 <= i < j < rects.len(),
    ensures
        rects[i].x + rects[i].w + cfg.brick_gap <= rects[j].x,
    decreases j - i,
{
    if j > i + 1 {
        lemma_row_ordered(rects, cfg, row, start, i, j - 1);
    }
    assert(rects[j].x == rects[j - 1].x + rects[j - 1].w + cfg.brick_gap);
}

/// In a row that tiles the field, every point from the row's start up to the
/// end of the rectangle at index `k` and its gap is held by a rectangle, or
/// its gap, at an index up to `k`. The index is returned.
pub proof fn lemma_prefix_held(
    rects: Seq<Rect>,
    cfg: Config,
    row: int,
    start: int,
    k: int,
    p: int,
) -> (i: int)
    requires
        tiles_from(rects, cfg, row, start),
        0 <= k < rects.len(),
        start <= p < rects[k].x + rects[k].w + cfg.brick_gap,
    ensures
        0 <= i <= k,
        holds_point(rects, cfg, i, p),
    decreases k,
{
    if rects[k].x <= p {
        k
    } else {
        assert(rects[k].x == rects[k - 1].x + rects[k - 1].w + cfg.brick_gap);
        lemma_prefix_held(rects, cfg, row, start, k - 1, p)
    }
}

/// The obstacles of a row that tiles the field partition it: taken with the
/// gap to its right, each point of the field's width is held by exactly one
/// of them, and they follow each other from left to right without overlap.
pub proof fn lemma_row_partitions_field(rects: Seq<Rect>, cfg: Config, row: int)
    requires
        tiles_row(rects, cfg, row),
    ensures
        forall|i: int, j: int|
            0 <= i < j < rects.len() ==> (#[trigger] rects[i]).x + rects[i].w + cfg.brick_gap <= (
            #[trigger] rects[j]).x,
        forall|p: int| 0 <= p < cfg.field_width ==> #[trigger] held(rects, cfg, p),
        forall|p: int, i: int, j: int|
            #[trigger] holds_point(rects, cfg, i, p) && #[trigger] holds_point(rects, cfg, j, p)
                ==> i == j,
        forall|i: int|
            0 <= i < rects.len() ==> 0 <= (#[trigger] rects[i]).x && rects[i].x + rects[i].w
                <= cfg.field_width,
        rects.len() <= cfg.field_width,
{
    let last: int = rects.len() - 1;
    assert forall|i: int, j: int| 0 <= i < j < rects.len() implies (#[trigger] rects[i]).x
        + rects[i].w + cfg.brick_gap <= (#[trigger] rects[j]).x by {
        lemma_row_ordered(rects, cfg, row, 0, i, j);
    }
    assert forall|p: int| 0 <= p < cfg.field_width implies #[trigger] held(rects, cfg, p) by {
        let i: int = lemma_prefix_held(rects, cfg, row, 0, last, p);
    }
    assert forall|p: int, i: int, j: int|
        #[trigger] holds_point(rects, cfg, i, p) && #[trigger] holds_point(
            rects,
            cfg,
            j,
            p,
        ) implies i == j by {
        if i < j {
            lemma_row_ordered(rects, cfg, row, 0, i, j);
        }
        if j < i {
            lemma_row_ordered(rects, cfg, row, 0, j, i);
        }
    }
    assert forall|i: int| 0 <= i < rects.len() implies 0 <= (#[trigger] rects[i]).x && rects[i].x
        + rects[i].w <= cfg.field_width by {
        lemma_row_begins(rects, cfg, row, 0, i);
        if i < last {
            lemma_row_ordered(rects, cfg, row, 0, i, last);
        }
    }
    lemma_row_begins(rects, cfg, row, 0, last);
}

/// Appends a fresh field of obstacles to the collection: for each row of the
/// configuration, from the top one down, obstacles of random widths that
/// tile the width of the field.
pub fn generate_obstacles(cfg: &Config, obstacles: &mut Vec<Obstacle>)
    requires
        cfg.valid(),
    ensures
        final(obstacles)@.len() >= old(obstacles)@.len(),
        final(obstacles)@.take(old(obstacles)@.len() as int) == old(obstacles)@,
        is_layout(outlines(final(obstacles)@.skip(old(obstacles)@.len() as int)), *cfg),
        all_intact(final(obstacles)@.skip(old(obstacles)@.len() as int)),
        final(obstacles)@.len() - old(obstacles)@.len() <= cfg.rows * cfg.field_width,
{
    let ghost before: Seq<Obstacle> = obstacles@;
    let ghost mut rows: Seq<Seq<Rect>> = Seq::empty();
    let mut rng = thread_rng();
    let capacity: usize = (cfg.field_width as usize) / (cfg.min_width as usize
        + cfg.brick_gap as usize) + 1;
    let mut row: u8 = 0;
    proof {
        assert(outlines(obstacles@.skip(before.len() as int)) =~= rows.flatten());
    }
    while row < cfg.rows
        invariant
            cfg.valid(),
            capacity == row_capacity(*cfg),
            row <= cfg.rows,
            rows.len() == row,
            forall|r: int| 0 <= r < rows.len() ==> tiles_row(#[trigger] rows[r], *cfg, r),
            obstacles@.len() >= before.len(),
            obstacles@.take(before.len() as int) == before,
            outlines(obstacles@.skip(before.len() as int)) == rows.flatten(),
            all_intact(obstacles@.skip(before.len() as int)),
            obstacles@.len() - before.len() <= row * cfg.field_width,
        decreases cfg.rows - row,
    {
        let ghost so_far: Seq<Obstacle> = obstacles@;
        let draws: Vec<u16> = draw_many(&mut rng, cfg.width_range, capacity);
        let mut bricks: Vec<Obstacle> = lay_row(cfg, row, &draws);
        let ghost added: Seq<Obstacle> = bricks@;
        proof {
            lemma_laid_row_tiles_from(*cfg, row, 0, draws@);
            lemma_row_partitions_field(outlines(added), *cfg, row as int);
        }
        obstacles.append(&mut bricks);
        proof {
            let n: int = before.len() as int;
            assert(obstacles@.skip(n) =~= so_far.skip(n) + added);
            assert(outlines(obstacles@.skip(n)) =~= outlines(so_far.skip(n)) + outlines(added));
            rows.lemma_flatten_push(outlines(added));
            rows = rows.push(outlines(added));
            assert((row + 1) * cfg.field_width == row * cfg.field_width + cfg.field_width)
                by (nonlinear_arith);
        }
        row = row + 1;
    }
    proof {
        assert(rows_tile(rows, *cfg));
    }
}

} // verus!
