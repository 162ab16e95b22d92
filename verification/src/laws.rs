//! Properties of the game that hold across actions and states.
use vstd::prelude::*;

use crate::board::{
    blocked, cleared_count, on_board, place_cells,
    cleared_board, cleared_cell, collides, filled, kept_rows, landed, landing_row,
    lemma_index_parts, lemma_kept_rows_shape, lemma_landing_row_range, row_full,
};
use crate::accounting::{
    block_count, full_rows_from, lemma_cleared_count_is_full_rows, lemma_kept_len, lemma_no_full_rows_counted, lemma_place_len,
    lemma_place_unchanged, lemma_place_writes, lemma_settle_books,
};
use crate::ai::{ai_step, AiAction, AiPlan};
use crate::model::{first_cell_above, shifted, turned, GameView};
use crate::pieces::{at_row, cell_x, cell_y, shape_table, Block, Kind, Piece};
use crate::rng::kind_draw;

verus! {

/// Every shape consists of four distinct cells.
pub proof fn lemma_shape_cells_distinct(kind: Kind, rotation: int, i: int, j: int)
    requires
        0 <= i < 4,
        0 <= j < 4,
        i != j,
    ensures
        shape_table(kind, rotation).len() == 4,
        shape_table(kind, rotation)[i] != shape_table(kind, rotation)[j],
{
}

/// A piece never comes to rest above the row it falls from.
pub proof fn lemma_landing_not_above(b: Seq<Option<Block>>, p: Piece)
    ensures
        landing_row(b, p) >= p.y,
        landed(b, p).y >= p.y,
    decreases 21 - p.y,
{
    if !(p.y >= 21 || collides(b, at_row(p, p.y + 1))) {
        lemma_landing_not_above(b, at_row(p, p.y + 1));
    }
}

/// The ghost (the falling piece dropped straight down) is never above the
/// falling piece; while the game runs it overlaps nothing and rests on
/// something: one row lower it would collide.
pub proof fn lemma_ghost_below_current(g: GameView)
    requires
        g.inv(),
    ensures
        landed(g.board, g.current).y >= g.current.y,
        landed(g.board, g.current).x == g.current.x,
        landed(g.board, g.current).rotation == g.current.rotation,
        landed(g.board, g.current).kind == g.current.kind,
        !g.game_over ==> !collides(g.board, landed(g.board, g.current)),
        !g.game_over ==> collides(g.board, shifted(landed(g.board, g.current), 0, 1)),
{
    lemma_landing_not_above(g.board, g.current);
    if !g.game_over {
        lemma_landing_row_range(g.board, g.current);
        lemma_landing_rests(g.board, g.current);
    }
}

/// One row below where a piece lands, it collides.
pub proof fn lemma_landing_rests(b: Seq<Option<Block>>, p: Piece)
    requires
        !collides(b, p),
    ensures
        collides(b, shifted(landed(b, p), 0, 1)),
    decreases 21 - p.y,
{
    lemma_landing_row_range(b, p);
    if !(p.y >= 21 || collides(b, at_row(p, p.y + 1))) {
        lemma_landing_rests(b, at_row(p, p.y + 1));
        assert(landed(b, p) == landed(b, at_row(p, p.y + 1)));
    } else {
        assert(shifted(landed(b, p), 0, 1) == at_row(p, p.y + 1));
    }
}

/// Holding is allowed once per piece: a second hold right after the first
/// changes nothing, and a hold that acts puts the falling kind aside.
pub proof fn lemma_hold_once_per_piece(g: GameView)
    requires
        g.inv(),
    ensures
        g.after_hold().after_hold() == g.after_hold(),
        g.active() && g.can_hold ==> g.after_hold().hold == Some(g.current.kind)
            && !g.after_hold().can_hold,
{
}

/// A hard drop always ends the falling piece: it locks (one more piece,
/// holding allowed again) or the game ends.
pub proof fn lemma_hard_drop_locks(g: GameView)
    requires
        g.inv(),
        g.active(),
    ensures
        g.after_hard_drop().game_over || (g.after_hard_drop().pieces == g.pieces + 1
            && g.after_hard_drop().can_hold),
{
}

/// A sideways step that succeeds is undone by the opposite step.
pub proof fn lemma_move_undone(g: GameView, dx: int)
    requires
        g.inv(),
        dx == 1 || dx == -1,
        g.can_move(dx, 0),
    ensures
        g.after_move(dx, 0).after_move(-dx, 0) == g,
{
    assert(shifted(shifted(g.current, dx, 0), -dx, 0) == g.current);
}

/// A clockwise turn that needs no kick is undone by a counter-clockwise turn.
pub proof fn lemma_rotation_undone(g: GameView)
    requires
        g.inv(),
        g.active(),
        !collides(g.board, shifted(turned(g.current, 1), 0, 0)),
    ensures
        g.after_rotate(1).after_rotate(3) == g,
{
    let t = shifted(turned(g.current, 1), 0, 0);
    assert(shifted(turned(t, 3), 0, 0) == g.current);
}

/// Pausing twice returns to the same state.
pub proof fn lemma_pause_twice(g: GameView)
    ensures
        g.after_toggle_pause().after_toggle_pause() == g,
{
}

/// A paused game ignores every piece action.
pub proof fn lemma_paused_game_is_frozen(g: GameView, dx: int, dy: int, amount: int)
    requires
        g.paused,
    ensures
        g.after_move(dx, dy) == g,
        g.after_soft_drop() == g,
        g.after_hard_drop() == g,
        g.after_gravity() == g,
        g.after_rotate(amount) == g,
        g.after_hold() == g,
{
}

/// Once the game is over, every action (pausing included) leaves it unchanged.
pub proof fn lemma_game_over_is_final(g: GameView, dx: int, dy: int, amount: int)
    requires
        g.game_over,
    ensures
        g.after_move(dx, dy) == g,
        g.after_soft_drop() == g,
        g.after_hard_drop() == g,
        g.after_gravity() == g,
        g.after_rotate(amount) == g,
        g.after_hold() == g,
        g.after_toggle_pause() == g,
{
}

/// Score, lines and pieces never decrease; one action clears at most four
/// rows and locks at most one piece. Moves, turns, holds and pausing leave
/// the counters as they are.
pub proof fn lemma_counters_never_decrease(g: GameView, dx: int, dy: int, amount: int)
    requires
        g.inv(),
    ensures
        g.after_move(dx, dy).score == g.score,
        g.after_move(dx, dy).lines == g.lines,
        g.after_move(dx, dy).pieces == g.pieces,
        g.after_rotate(amount).score == g.score,
        g.after_rotate(amount).lines == g.lines,
        g.after_rotate(amount).pieces == g.pieces,
        g.after_hold().score == g.score,
        g.after_hold().lines == g.lines,
        g.after_hold().pieces == g.pieces,
        g.after_toggle_pause().score == g.score,
        g.after_toggle_pause().lines == g.lines,
        g.after_toggle_pause().pieces == g.pieces,
        g.score <= g.after_soft_drop().score,
        g.lines <= g.after_soft_drop().lines <= g.lines + 4,
        g.pieces <= g.after_soft_drop().pieces <= g.pieces + 1,
        g.score <= g.after_hard_drop().score,
        g.lines <= g.after_hard_drop().lines <= g.lines + 4,
        g.pieces <= g.after_hard_drop().pieces <= g.pieces + 1,
        g.score <= g.after_gravity().score,
        g.lines <= g.after_gravity().lines <= g.lines + 4,
        g.pieces <= g.after_gravity().pieces <= g.pieces + 1,
{
    lemma_lock_bounds(g);
    lemma_landing_not_above(g.board, g.current);
    let l = landed(g.board, g.current);
    let h = GameView { current: l, score: g.score + 2 * (l.y - g.current.y), ..g };
    if g.active() {
        lemma_landing_row_range(g.board, g.current);
        lemma_lock_bounds(h);
    }
}

/// Locking a piece that fits, in a running game, raises the counters by at
/// most four rows and one piece; holding is allowed again exactly when a
/// piece was added.
pub proof fn lemma_lock_bounds(g: GameView)
    requires
        g.board.len() == 200,
        g.lines >= 0,
        g.active() ==> !collides(g.board, g.current),
        g.books_balanced(),
    ensures
        g.active() ==> g.after_lock().score >= g.score,
        g.active() ==> g.lines <= g.after_lock().lines <= g.lines + 4,
        g.active() ==> g.pieces <= g.after_lock().pieces <= g.pieces + 1,
        g.active() && g.after_lock().pieces == g.pieces ==> g.after_lock().can_hold == g.can_hold,
        g.active() && g.after_lock().pieces != g.pieces ==> g.after_lock().can_hold,
{
    lemma_lock_counters(g);
    if g.active() && first_cell_above(g.current) == 4 {
        lemma_settle_books(g);
    }
}

/// Holding is allowed again exactly when a drop locks a piece: moves, turns,
/// pausing and drops that lock nothing leave it as it is, a hold that acts
/// forbids the next, and without the right to hold a hold changes nothing.
pub proof fn lemma_hold_right_changes(g: GameView, dx: int, dy: int, amount: int)
    requires
        g.inv(),
    ensures
        g.after_move(dx, dy).can_hold == g.can_hold,
        g.after_rotate(amount).can_hold == g.can_hold,
        g.after_toggle_pause().can_hold == g.can_hold,
        !g.can_hold ==> g.after_hold() == g,
        g.active() && g.can_hold ==> !g.after_hold().can_hold,
        g.after_soft_drop().pieces == g.pieces ==> g.after_soft_drop().can_hold == g.can_hold,
        g.after_soft_drop().pieces != g.pieces ==> g.after_soft_drop().can_hold,
        g.after_hard_drop().pieces == g.pieces ==> g.after_hard_drop().can_hold == g.can_hold,
        g.after_hard_drop().pieces != g.pieces ==> g.after_hard_drop().can_hold,
        g.after_gravity().pieces == g.pieces ==> g.after_gravity().can_hold == g.can_hold,
        g.after_gravity().pieces != g.pieces ==> g.after_gravity().can_hold,
{
    lemma_lock_bounds(g);
    let l = landed(g.board, g.current);
    let h = GameView { current: l, score: g.score + 2 * (l.y - g.current.y), ..g };
    if g.active() {
        lemma_landing_row_range(g.board, g.current);
        lemma_lock_bounds(h);
    }
}

/// A soft drop does what a gravity step does, plus one point when the piece
/// moves down.
pub proof fn lemma_soft_drop_is_gravity_and_a_point(g: GameView)
    ensures
        g.after_soft_drop() == (GameView {
            score: g.after_gravity().score + if g.can_move(0, 1) {
                1int
            } else {
                0int
            },
            ..g.after_gravity()
        }),
{
}

/// In every reachable state the game is not both paused and over, and while
/// it runs no row of the board is full and the board holds four blocks per
/// locked piece less ten per cleared row.
pub proof fn lemma_board_books(g: GameView)
    requires
        g.inv(),
    ensures
        !(g.paused && g.game_over),
        !g.game_over ==> forall|r: int| 0 <= r < 20 ==> !#[trigger] row_full(g.board, r),
        !g.game_over ==> block_count(g.board) == 4 * g.pieces - 10 * g.lines,
{
}

/// Locking never lowers a counter.
pub proof fn lemma_lock_counters(g: GameView)
    requires
        g.lines >= 0,
    ensures
        g.after_lock().score >= g.score,
        g.after_lock().lines >= g.lines,
        g.after_lock().pieces >= g.pieces,
{
    let placed = crate::board::place_cells(g.board, g.current, 4);
    let c = crate::board::cleared_count(placed) as int;
    let lv = (g.lines + c) / 10 + 1;
    assert(lv >= 1);
    assert(crate::model::line_points(c) >= 0);
    assert(crate::model::line_points(c) * lv >= 0) by (nonlinear_arith)
        requires
            crate::model::line_points(c) >= 0,
            lv >= 1,
    ;
}

/// Every row the clearing keeps was not full.
pub proof fn lemma_kept_rows_not_full(b: Seq<Option<Block>>, y: int, j: int)
    requires
        0 <= y <= 20,
        0 <= j < kept_rows(b, y).len(),
    ensures
        !row_full(b, kept_rows(b, y)[j]),
    decreases 20 - y,
{
    if y < 20 {
        if row_full(b, y) {
            lemma_kept_rows_not_full(b, y + 1, j);
        } else if j > 0 {
            lemma_kept_rows_not_full(b, y + 1, j - 1);
        }
    }
}

/// After clearing, no row is full.
pub proof fn lemma_cleared_board_has_no_full_row(b: Seq<Option<Block>>, y: int)
    requires
        b.len() == 200,
        0 <= y < 20,
    ensures
        !row_full(cleared_board(b), y),
{
    let kept = kept_rows(b, 0);
    lemma_kept_rows_shape(b, 0);
    let top = 20 - kept.len();
    let c = cleared_board(b);
    lemma_index_parts(y * 10);
    assert((y * 10) / 10 == y && (y * 10) % 10 == 0);
    if y < top {
        assert(c[y * 10 + 0] == cleared_cell(b, 0, y));
        assert(!filled(c, 0, y));
    } else {
        let r = kept[y - top];
        lemma_kept_rows_not_full(b, 0, y - top);
        let x = choose|x: int| 0 <= x < 10 && !filled(b, x, r);
        lemma_index_parts(y * 10 + x);
        assert((y * 10 + x) / 10 == y && (y * 10 + x) % 10 == x) by (nonlinear_arith)
            requires
                0 <= x < 10,
                0 <= y < 20,
        ;
        assert(c[y * 10 + x] == cleared_cell(b, x, y));
        assert(!filled(c, x, y));
    }
}

/// With no full row, the rows kept from `y` on are all of `y..20`.
pub proof fn lemma_kept_rows_all(b: Seq<Option<Block>>, y: int)
    requires
        0 <= y <= 20,
        forall|r: int| 0 <= r < 20 ==> !#[trigger] row_full(b, r),
    ensures
        kept_rows(b, y).len() == 20 - y,
        forall|j: int| 0 <= j < 20 - y ==> #[trigger] kept_rows(b, y)[j] == y + j,
    decreases 20 - y,
{
    if y < 20 {
        lemma_kept_rows_all(b, y + 1);
        assert(!row_full(b, y));
        let k = kept_rows(b, y);
        assert forall|j: int| 0 <= j < 20 - y implies #[trigger] k[j] == y + j by {
            if j > 0 {
                assert(k[j] == kept_rows(b, y + 1)[j - 1]);
            }
        }
    }
}

/// Clearing a board without full rows changes nothing; in particular,
/// clearing twice is the same as clearing once.
pub proof fn lemma_clearing_is_idempotent(b: Seq<Option<Block>>)
    requires
        b.len() == 200,
    ensures
        (forall|r: int| 0 <= r < 20 ==> !#[trigger] row_full(b, r)) ==> cleared_board(b) == b,
        cleared_board(cleared_board(b)) == cleared_board(b),
{
    assert forall|c: Seq<Option<Block>>|
        c.len() == 200 && (forall|r: int| 0 <= r < 20 ==> !#[trigger] row_full(c, r)) implies
        #[trigger] cleared_board(c) == c by {
        lemma_kept_rows_all(c, 0);
        assert forall|i: int| 0 <= i < 200 implies #[trigger] cleared_board(c)[i] == c[i] by {
            lemma_index_parts(i);
        }
        assert(cleared_board(c) =~= c);
    }
    assert forall|r: int| 0 <= r < 20 implies !#[trigger] row_full(cleared_board(b), r) by {
        lemma_cleared_board_has_no_full_row(b, r);
    }
}

/// The horizontal kicks a rotation tries, in order.
pub open spec fn kick_offsets() -> Seq<int> {
    seq![0int, -1int, 1int, -2int, 2int]
}

/// Rotation with wall kicks: the piece turns by `amount` quarter turns and
/// moves to the first horizontal shift among 0, -1, +1, -2, +2 at which it
/// fits; the turn is refused (nothing changes) only when it fits at none.
pub proof fn lemma_rotation_kicks(g: GameView, amount: int, i: int)
    requires
        g.active(),
        0 <= i < 5,
    ensures
        ({
            let t = |k: int|
                Piece {
                    rotation: ((g.current.rotation + amount) % 4) as usize,
                    x: (g.current.x + k) as i32,
                    ..g.current
                };
            &&& (!collides(g.board, t(kick_offsets()[i])) && forall|j: int|
                0 <= j < i ==> collides(g.board, #[trigger] t(kick_offsets()[j])))
                ==> g.after_rotate(amount) == (GameView { current: t(kick_offsets()[i]), ..g })
            &&& (forall|j: int| 0 <= j < 5 ==> collides(g.board, #[trigger] t(kick_offsets()[j])))
                ==> g.after_rotate(amount) == g
        }),
{
    let t = |k: int|
        Piece {
            rotation: ((g.current.rotation + amount) % 4) as usize,
            x: (g.current.x + k) as i32,
            ..g.current
        };
    let r = turned(g.current, amount);
    assert forall|k: int| #[trigger] shifted(r, k, 0) == t(k) by {
        assert(shifted(r, k, 0).y == g.current.y);
    }
    assert(kick_offsets()[0] == 0 && kick_offsets()[1] == -1 && kick_offsets()[2] == 1
        && kick_offsets()[3] == -2 && kick_offsets()[4] == 2);
    if forall|j: int| 0 <= j < i ==> collides(g.board, #[trigger] t(kick_offsets()[j])) {
        if i > 0 {
            assert(collides(g.board, t(kick_offsets()[0])));
        }
        if i > 1 {
            assert(collides(g.board, t(kick_offsets()[1])));
        }
        if i > 2 {
            assert(collides(g.board, t(kick_offsets()[2])));
        }
        if i > 3 {
            assert(collides(g.board, t(kick_offsets()[3])));
        }
    }
    if forall|j: int| 0 <= j < 5 ==> collides(g.board, #[trigger] t(kick_offsets()[j])) {
        assert(collides(g.board, t(kick_offsets()[0])));
        assert(collides(g.board, t(kick_offsets()[1])));
        assert(collides(g.board, t(kick_offsets()[2])));
        assert(collides(g.board, t(kick_offsets()[3])));
        assert(collides(g.board, t(kick_offsets()[4])));
    }
}

/// Points for clearing `c` rows with one piece: 100, 300, 500, 800 for one
/// to four rows, nothing for none.
pub open spec fn points_for_rows(c: int) -> int {
    if c == 1 {
        100
    } else if c == 2 {
        300
    } else if c == 3 {
        500
    } else if c == 4 {
        800
    } else {
        0
    }
}

/// Scoring and the piece queue when a gravity step, soft drop or hard drop
/// locks a piece (one more piece): the score rises by the points for the rows
/// cleared (as many as the line count rose) times the level after the clear,
/// plus two points per row fallen for a hard drop; the queue's head falls
/// next from the spawn point, the rest of the queue moves up one place and a
/// fresh draw joins its end. A step that locks nothing changes neither score
/// nor lines (a soft drop that moves scores one point).
pub proof fn lemma_lock_scoring_and_queue(g: GameView)
    requires
        g.inv(),
        g.active(),
    ensures
        ({
            let a = g.after_gravity();
            let c = a.lines - g.lines;
            &&& a.pieces == g.pieces + 1 ==> a.score == g.score + points_for_rows(c) * (a.lines / 10
                + 1)
            &&& a.pieces == g.pieces ==> a.score == g.score && a.lines == g.lines
            &&& a.pieces == g.pieces + 1 ==> a.current == (Piece {
                kind: g.next[0],
                rotation: 0,
                x: 4,
                y: -1i32,
            })
            &&& a.pieces == g.pieces + 1 ==> a.next.len() == 5 && (forall|i: int|
                0 <= i < 4 ==> #[trigger] a.next[i] == g.next[i + 1]) && a.next[4] == kind_draw(
                g.rng,
            )
        }),
        ({
            let a = g.after_soft_drop();
            let c = a.lines - g.lines;
            &&& a.pieces == g.pieces + 1 ==> a.score == g.score + points_for_rows(c) * (a.lines / 10
                + 1)
            &&& a.pieces == g.pieces ==> a.lines == g.lines && (a.score == g.score + 1 || a.score
                == g.score)
            &&& a.pieces == g.pieces + 1 ==> a.current == (Piece {
                kind: g.next[0],
                rotation: 0,
                x: 4,
                y: -1i32,
            })
            &&& a.pieces == g.pieces + 1 ==> a.next.len() == 5 && (forall|i: int|
                0 <= i < 4 ==> #[trigger] a.next[i] == g.next[i + 1]) && a.next[4] == kind_draw(
                g.rng,
            )
        }),
        ({
            let a = g.after_hard_drop();
            let c = a.lines - g.lines;
            let fallen = landed(g.board, g.current).y - g.current.y;
            &&& a.pieces == g.pieces + 1 ==> a.score == g.score + 2 * fallen + points_for_rows(c) * (
            a.lines / 10 + 1)
            &&& a.pieces == g.pieces + 1 ==> a.current == (Piece {
                kind: g.next[0],
                rotation: 0,
                x: 4,
                y: -1i32,
            })
            &&& a.pieces == g.pieces + 1 ==> a.next.len() == 5 && (forall|i: int|
                0 <= i < 4 ==> #[trigger] a.next[i] == g.next[i + 1]) && a.next[4] == kind_draw(
                g.rng,
            )
        }),
{
    let h = GameView {
        current: landed(g.board, g.current),
        score: g.score + 2 * (landed(g.board, g.current).y - g.current.y),
        ..g
    };
    lemma_landing_row_range(g.board, g.current);
    lemma_lock_bounds(g);
    lemma_lock_bounds(h);
}

/// Holding with an empty slot puts the falling kind aside and takes the
/// queue's head from the spawn point; the queue moves up one place and a
/// fresh draw joins its end.
pub proof fn lemma_hold_takes_queue_head(g: GameView)
    requires
        g.inv(),
        g.active(),
        g.can_hold,
        g.hold is None,
    ensures
        g.after_hold().hold == Some(g.current.kind),
        g.after_hold().current == (Piece { kind: g.next[0], rotation: 0, x: 4, y: -1i32 }),
        g.after_hold().next.len() == 5,
        forall|i: int| 0 <= i < 4 ==> #[trigger] g.after_hold().next[i] == g.next[i + 1],
        g.after_hold().next[4] == kind_draw(g.rng),
{
}

/// A move by (`dx`, `dy`) puts the piece exactly there when the game is
/// active and the moved piece overlaps nothing; otherwise nothing changes.
pub proof fn lemma_move_goes_where_free(g: GameView, dx: int, dy: int)
    ensures
        ({
            let m = Piece {
                x: (g.current.x + dx) as i32,
                y: (g.current.y + dy) as i32,
                ..g.current
            };
            &&& g.active() && !collides(g.board, m) ==> g.after_move(dx, dy) == (GameView {
                current: m,
                ..g
            })
            &&& !(g.active() && !collides(g.board, m)) ==> g.after_move(dx, dy) == g
        }),
{
}

/// A gravity step or soft drop moves the piece one row down when that row is
/// free (a soft drop scoring one point); when it is not, the piece locks:
/// either one more piece is counted or the game ends.
pub proof fn lemma_drop_step(g: GameView)
    requires
        g.inv(),
        g.active(),
    ensures
        ({
            let d = Piece { y: (g.current.y + 1) as i32, ..g.current };
            &&& !collides(g.board, d) ==> g.after_gravity() == (GameView { current: d, ..g })
            &&& !collides(g.board, d) ==> g.after_soft_drop() == (GameView {
                current: d,
                score: g.score + 1,
                ..g
            })
            &&& collides(g.board, d) ==> g.after_gravity().pieces == g.pieces + 1
                || g.after_gravity().game_over
            &&& collides(g.board, d) ==> g.after_soft_drop() == g.after_gravity()
        }),
{
    let d = Piece { y: (g.current.y + 1) as i32, ..g.current };
    assert(shifted(g.current, 0, 1) == d);
}

/// A lock that clears no row writes a block of the piece's kind into each
/// of its four cells and leaves every other cell as it was.
pub proof fn lemma_lock_writes_piece(g: GameView)
    requires
        g.inv(),
        g.active(),
        collides(g.board, Piece { y: (g.current.y + 1) as i32, ..g.current }),
        g.after_gravity().pieces == g.pieces + 1,
        g.after_gravity().lines == g.lines,
    ensures
        forall|i: int|
            0 <= i < 4 ==> g.after_gravity().board[#[trigger] (cell_y(g.current, i) * 10 + cell_x(
                g.current,
                i,
            ))] == Some(Block { kind: g.current.kind }),
        forall|k: int|
            0 <= k < 200 && (forall|i: int|
                0 <= i < 4 ==> #[trigger] (cell_y(g.current, i) * 10 + cell_x(g.current, i)) != k)
                ==> #[trigger] g.after_gravity().board[k] == g.board[k],
{
    let p = g.current;
    assert(shifted(p, 0, 1) == Piece { y: (p.y + 1) as i32, ..p });
    assert(first_cell_above(p) == 4);
    assert(on_board(p)) by {
        assert(!blocked(g.board, cell_x(p, 0), cell_y(p, 0)));
        assert(!blocked(g.board, cell_x(p, 1), cell_y(p, 1)));
        assert(!blocked(g.board, cell_x(p, 2), cell_y(p, 2)));
        assert(!blocked(g.board, cell_x(p, 3), cell_y(p, 3)));
    }
    let placed = place_cells(g.board, p, 4);
    lemma_place_len(g.board, p, 4);
    lemma_cleared_count_is_full_rows(placed);
    lemma_no_full_rows_counted(placed, 0);
    lemma_clearing_is_idempotent(placed);
    assert(g.after_gravity().board == placed);
    assert forall|i: int| 0 <= i < 4 implies placed[#[trigger] (cell_y(p, i) * 10 + cell_x(p, i))]
        == Some(Block { kind: p.kind }) by {
        lemma_place_writes(g.board, p, 4, i);
    }
    assert forall|k: int|
        0 <= k < 200 && (forall|i: int|
            0 <= i < 4 ==> #[trigger] (cell_y(p, i) * 10 + cell_x(p, i)) != k) implies #[trigger] placed[k]
        == g.board[k] by {
        lemma_place_unchanged(g.board, p, 4, k);
    }
}

/// The bot's next action toward a plan: nothing while paused or over or
/// without a plan; a hold only when the plan asks for one and holding is
/// allowed; a turn only while the rotation differs modulo 4, clockwise when
/// that is the shorter way round (or as short); a sideways step only toward
/// the target column once the rotation matches; a hard drop only at the
/// target rotation and column.
pub proof fn lemma_ai_step_heads_for_plan(g: GameView, plan: Option<AiPlan>)
    ensures
        ai_step(g, plan) is None <==> !g.active() || plan is None,
        ({
            let a = ai_step(g, plan);
            let c = g.current.rotation % 4;
            &&& plan matches Some(p) ==> (a == Some(AiAction::Hold) <==> g.active() && p.use_hold
                && g.can_hold)
            &&& plan matches Some(p) ==> (a == Some(AiAction::RotateCw) ==> c != p.target_rotation
                % 4 && (p.target_rotation % 4 - c + 4) % 4 <= 2)
            &&& plan matches Some(p) ==> (a == Some(AiAction::RotateCcw) ==> c != p.target_rotation
                % 4 && (p.target_rotation % 4 - c + 4) % 4 == 3)
            &&& plan matches Some(p) ==> (a == Some(AiAction::MoveRight) ==> c
                == p.target_rotation % 4 && g.current.x < p.target_x)
            &&& plan matches Some(p) ==> (a == Some(AiAction::MoveLeft) ==> c
                == p.target_rotation % 4 && g.current.x > p.target_x)
            &&& plan matches Some(p) ==> (a == Some(AiAction::HardDrop) <==> g.active() && !(
            p.use_hold && g.can_hold) && c == p.target_rotation % 4 && g.current.x == p.target_x)
            &&& a != Some(AiAction::SoftDrop)
        }),
{
}

/// The rows kept after row `kept_rows(b, a)[j]` are the rest of the list.
pub proof fn lemma_kept_tail(b: Seq<Option<Block>>, a: int, j: int)
    requires
        0 <= a <= 20,
        0 <= j < kept_rows(b, a).len(),
    ensures
        kept_rows(b, kept_rows(b, a)[j] + 1) == kept_rows(b, a).subrange(j + 1, kept_rows(b, a).len() as int),
    decreases 20 - a,
{
    let k = kept_rows(b, a);
    if a < 20 {
        if row_full(b, a) {
            lemma_kept_tail(b, a + 1, j);
        } else if j == 0 {
            assert(k[0] == a);
            assert(kept_rows(b, a + 1) =~= k.subrange(1, k.len() as int));
        } else {
            lemma_kept_tail(b, a + 1, j - 1);
            assert(k[j] == kept_rows(b, a + 1)[j - 1]);
            assert(kept_rows(b, a + 1).subrange(j, kept_rows(b, a + 1).len() as int) =~= k.subrange(
                j + 1,
                k.len() as int,
            ));
        }
    }
}

/// Clearing `c` full rows leaves the top `c` rows empty, and moves every row
/// that was not full down by the number of full rows below it: row `y` of the
/// result (for `y >= c`) is the row `r <= y` of the old board that is not full
/// and has exactly `19 - y` rows that are not full below it.
pub proof fn lemma_clear_moves_rows_down(b: Seq<Option<Block>>, y: int)
    requires
        b.len() == 200,
        0 <= y < 20,
    ensures
        cleared_count(b) == full_rows_from(b, 0),
        y < full_rows_from(b, 0) ==> forall|x: int|
            0 <= x < 10 ==> #[trigger] cleared_board(b)[y * 10 + x] is None,
        y >= full_rows_from(b, 0) ==> exists|r: int|
            #![trigger row_full(b, r)]
            0 <= r <= y && !row_full(b, r) && (19 - r) - full_rows_from(b, r + 1) == 19 - y
                && forall|x: int|
                0 <= x < 10 ==> #[trigger] cleared_board(b)[y * 10 + x] == b[r * 10 + x],
{
    let k = kept_rows(b, 0);
    let top = 20 - k.len();
    lemma_cleared_count_is_full_rows(b);
    lemma_kept_rows_shape(b, 0);
    lemma_kept_len(b, 0);
    assert forall|x: int| 0 <= x < 10 implies #[trigger] cleared_board(b)[y * 10 + x]
        == cleared_cell(b, x, y) by {
        lemma_index_parts(y * 10 + x);
        assert((y * 10 + x) / 10 == y && (y * 10 + x) % 10 == x) by (nonlinear_arith)
            requires
                0 <= x < 10,
                0 <= y < 20,
        ;
    }
    if y >= top {
        let j = y - top;
        let r = k[j];
        lemma_kept_rows_not_full(b, 0, j);
        lemma_kept_tail(b, 0, j);
        lemma_kept_len(b, r + 1);
        assert(!row_full(b, r) && (19 - r) - full_rows_from(b, r + 1) == 19 - y);
    }
}

/// Every row a piece passes through on its way down to where it lands is
/// free: it never passes through a block.
pub proof fn lemma_landing_path_free(b: Seq<Option<Block>>, p: Piece, y: int)
    requires
        !collides(b, p),
        p.y <= y <= landing_row(b, p),
    ensures
        !collides(b, Piece { y: y as i32, ..p }),
    decreases 21 - p.y,
{
    lemma_landing_row_range(b, p);
    if y == p.y {
        assert(Piece { y: y as i32, ..p } == p);
    } else {
        let q = at_row(p, p.y + 1);
        assert(!(p.y >= 21 || collides(b, q)));
        lemma_landing_path_free(b, q, y);
        assert(Piece { y: y as i32, ..q } == Piece { y: y as i32, ..p });
    }
}

/// The ghost is where the falling piece comes to rest: every row from the
/// piece down to the ghost is free, and the row below the ghost is not.
pub proof fn lemma_ghost_path(g: GameView, y: int)
    requires
        g.inv(),
        !g.game_over,
        g.current.y <= y <= landed(g.board, g.current).y,
    ensures
        !collides(g.board, Piece { y: y as i32, ..g.current }),
        collides(
            g.board,
            Piece { y: (landed(g.board, g.current).y + 1) as i32, ..g.current },
        ),
{
    lemma_landing_row_range(g.board, g.current);
    lemma_landing_path_free(g.board, g.current, y);
    lemma_landing_rests(g.board, g.current);
    let l = landed(g.board, g.current);
    assert(shifted(l, 0, 1) == Piece { y: (l.y + 1) as i32, ..g.current });
}

/// Holding with a kind already held swaps: the held kind falls next from the
/// spawn point, the falling kind is held, the queue is untouched, and the
/// game ends exactly when the swapped-in piece does not fit.
pub proof fn lemma_hold_swaps(g: GameView, held: Kind)
    requires
        g.inv(),
        g.active(),
        g.can_hold,
        g.hold == Some(held),
    ensures
        g.after_hold().current == (Piece { kind: held, rotation: 0, x: 4, y: -1i32 }),
        g.after_hold().hold == Some(g.current.kind),
        g.after_hold().next == g.next,
        g.after_hold().board == g.board,
        g.after_hold().game_over <==> collides(g.board, g.after_hold().current),
{
}

/// Pausing flips the pause flag of a game that is not over, and nothing else.
pub proof fn lemma_pause_flips(g: GameView)
    requires
        !g.game_over,
    ensures
        g.after_toggle_pause() == (GameView { paused: !g.paused, ..g }),
{
}

/// When a step locks a piece, the game ends exactly when the next piece does
/// not fit where it spawns; when a cell of the locking piece is above the top
/// of the board, the game ends without counting a piece.
pub proof fn lemma_lock_ends_game(g: GameView)
    requires
        g.inv(),
        g.active(),
        collides(g.board, Piece { y: (g.current.y + 1) as i32, ..g.current }),
    ensures
        g.after_gravity().pieces == g.pieces + 1 ==> (g.after_gravity().game_over <==> collides(
            g.after_gravity().board,
            g.after_gravity().current,
        )),
        (cell_y(g.current, 0) < 0 || cell_y(g.current, 1) < 0 || cell_y(g.current, 2) < 0
            || cell_y(g.current, 3) < 0) ==> g.after_gravity().game_over
            && g.after_gravity().pieces == g.pieces && g.after_gravity().lines == g.lines
            && g.after_gravity().score == g.score,
        (cell_y(g.current, 0) >= 0 && cell_y(g.current, 1) >= 0 && cell_y(g.current, 2) >= 0
            && cell_y(g.current, 3) >= 0) ==> g.after_gravity().pieces == g.pieces + 1,
{
    assert(shifted(g.current, 0, 1) == Piece { y: (g.current.y + 1) as i32, ..g.current });
}

} // verus!
