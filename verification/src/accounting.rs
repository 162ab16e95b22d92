//! Counting blocks and full rows: what locking a piece and clearing rows do
//! to the number of blocks on the board.
use vstd::prelude::*;

use crate::board::{
    blocked, cell_index, cell_on_board, cleared_board, cleared_cell, cleared_count, collides,
    filled, kept_rows, lemma_index_parts, lemma_kept_rows_shape, on_board, place_cells, row_full,
};
use crate::laws::{lemma_cleared_board_has_no_full_row, lemma_shape_cells_distinct};
use crate::model::{first_cell_above, GameView};
use crate::pieces::{cell_x, cell_y, Block, Piece};

verus! {

/// Blocks in columns `0..n` of row `y`.
pub open spec fn row_count_upto(b: Seq<Option<Block>>, y: int, n: int) -> int
    decreases n,
{
    if n <= 0 {
        0
    } else {
        row_count_upto(b, y, n - 1) + (if filled(b, n - 1, y) {
            1int
        } else {
            0int
        })
    }
}

/// Blocks in row `y`.
pub open spec fn row_count(b: Seq<Option<Block>>, y: int) -> int {
    row_count_upto(b, y, 10)
}

/// Blocks in rows `y..20`.
pub open spec fn count_from(b: Seq<Option<Block>>, y: int) -> int
    decreases 20 - y,
{
    if y >= 20 {
        0
    } else {
        row_count(b, y) + count_from(b, y + 1)
    }
}

/// The number of blocks on the board.
pub open spec fn block_count(b: Seq<Option<Block>>) -> int {
    count_from(b, 0)
}

/// Full rows among rows `y..20`.
pub open spec fn full_rows_from(b: Seq<Option<Block>>, y: int) -> int
    decreases 20 - y,
{
    if y >= 20 {
        0
    } else {
        (if row_full(b, y) {
            1int
        } else {
            0int
        }) + full_rows_from(b, y + 1)
    }
}

/// No row of the board is full.
pub open spec fn no_full_row(b: Seq<Option<Block>>) -> bool {
    forall|r: int| 0 <= r < 20 ==> !#[trigger] row_full(b, r)
}

/// Block count of the rows the clearing keeps from `y` on.
pub open spec fn kept_count(b: Seq<Option<Block>>, y: int) -> int
    decreases 20 - y,
{
    if y >= 20 {
        0
    } else if row_full(b, y) {
        kept_count(b, y + 1)
    } else {
        row_count(b, y) + kept_count(b, y + 1)
    }
}

/// Block count of the rows `rows[j..]`.
pub open spec fn rows_count(b: Seq<Option<Block>>, rows: Seq<int>, j: int) -> int
    decreases rows.len() - j,
{
    if j >= rows.len() {
        0
    } else {
        row_count(b, rows[j]) + rows_count(b, rows, j + 1)
    }
}

/// A prefix of a row holds between 0 and `n` blocks, exactly `n` when every
/// cell of it is filled.
pub proof fn lemma_row_count_upto(b: Seq<Option<Block>>, y: int, n: int)
    requires
        0 <= n <= 10,
    ensures
        0 <= row_count_upto(b, y, n) <= n,
        row_count_upto(b, y, n) == n <==> forall|x: int| 0 <= x < n ==> #[trigger] filled(b, x, y),
        row_count_upto(b, y, n) == 0 <==> forall|x: int| 0 <= x < n ==> !#[trigger] filled(b, x, y),
    decreases n,
{
    if n > 0 {
        lemma_row_count_upto(b, y, n - 1);
        if row_count_upto(b, y, n) == n {
            assert forall|x: int| 0 <= x < n implies #[trigger] filled(b, x, y) by {
                if x < n - 1 {
                } else {
                }
            }
        }
        if row_count_upto(b, y, n) == 0 {
            assert forall|x: int| 0 <= x < n implies !#[trigger] filled(b, x, y) by {
                if x < n - 1 {
                } else {
                }
            }
        }
    }
}

/// A row is full exactly when it holds ten blocks.
pub proof fn lemma_row_full_count(b: Seq<Option<Block>>, y: int)
    ensures
        0 <= row_count(b, y) <= 10,
        row_full(b, y) <==> row_count(b, y) == 10,
{
    lemma_row_count_upto(b, y, 10);
}

/// Rows whose cells are filled alike hold as many blocks.
pub proof fn lemma_rows_alike(b1: Seq<Option<Block>>, y1: int, b2: Seq<Option<Block>>, y2: int, n: int)
    requires
        0 <= n <= 10,
        forall|x: int| 0 <= x < 10 ==> #[trigger] filled(b1, x, y1) == filled(b2, x, y2),
    ensures
        row_count_upto(b1, y1, n) == row_count_upto(b2, y2, n),
    decreases n,
{
    if n > 0 {
        lemma_rows_alike(b1, y1, b2, y2, n - 1);
        assert(filled(b1, n - 1, y1) == filled(b2, n - 1, y2));
    }
}

/// The clearing keeps `20 - y` rows from `y` on, less the full ones.
pub proof fn lemma_kept_len(b: Seq<Option<Block>>, y: int)
    requires
        0 <= y <= 20,
    ensures
        kept_rows(b, y).len() == 20 - y - full_rows_from(b, y),
        0 <= full_rows_from(b, y) <= 20 - y,
    decreases 20 - y,
{
    if y < 20 {
        lemma_kept_len(b, y + 1);
    }
}

/// The number of rows cleared is the number of full rows.
pub proof fn lemma_cleared_count_is_full_rows(b: Seq<Option<Block>>)
    ensures
        cleared_count(b) == full_rows_from(b, 0),
{
    lemma_kept_len(b, 0);
}

/// The kept rows hold all blocks but those of the full rows.
pub proof fn lemma_kept_count(b: Seq<Option<Block>>, y: int)
    requires
        0 <= y <= 20,
    ensures
        kept_count(b, y) == count_from(b, y) - 10 * full_rows_from(b, y),
    decreases 20 - y,
{
    if y < 20 {
        lemma_kept_count(b, y + 1);
        lemma_row_full_count(b, y);
    }
}

/// Counting the rows after a leading one skips that row.
pub proof fn lemma_rows_count_shift(b: Seq<Option<Block>>, r: int, rows: Seq<int>, j: int)
    requires
        0 <= j <= rows.len(),
    ensures
        rows_count(b, seq![r].add(rows), j + 1) == rows_count(b, rows, j),
    decreases rows.len() - j,
{
    let s = seq![r].add(rows);
    if j < rows.len() {
        lemma_rows_count_shift(b, r, rows, j + 1);
        assert(s[j + 1] == rows[j]);
    }
}

/// Counting the kept rows one by one gives `kept_count`.
pub proof fn lemma_rows_count_kept(b: Seq<Option<Block>>, y: int)
    requires
        0 <= y <= 20,
    ensures
        rows_count(b, kept_rows(b, y), 0) == kept_count(b, y),
    decreases 20 - y,
{
    if y < 20 {
        lemma_rows_count_kept(b, y + 1);
        if !row_full(b, y) {
            lemma_rows_count_shift(b, y, kept_rows(b, y + 1), 0);
        }
    }
}

/// Cell (x, y) of the cleared board, read through its index.
pub proof fn lemma_cleared_filled(b: Seq<Option<Block>>, x: int, y: int)
    requires
        0 <= x < 10,
        0 <= y < 20,
    ensures
        filled(cleared_board(b), x, y) == cleared_cell(b, x, y) is Some,
{
    lemma_index_parts(y * 10 + x);
    assert((y * 10 + x) / 10 == y && (y * 10 + x) % 10 == x) by (nonlinear_arith)
        requires
            0 <= x < 10,
            0 <= y < 20,
    ;
}

/// Rows of the cleared board: empty on top, then the kept rows.
pub proof fn lemma_cleared_row(b: Seq<Option<Block>>, y: int)
    requires
        0 <= y < 20,
    ensures
        ({
            let kept = kept_rows(b, 0);
            let top = 20 - kept.len();
            &&& y < top ==> row_count(cleared_board(b), y) == 0
            &&& y >= top ==> row_count(cleared_board(b), y) == row_count(b, kept[y - top])
        }),
{
    let kept = kept_rows(b, 0);
    let top = 20 - kept.len();
    let c = cleared_board(b);
    assert forall|x: int| 0 <= x < 10 implies #[trigger] filled(c, x, y) == (
    cleared_cell(b, x, y) is Some) by {
        lemma_cleared_filled(b, x, y);
    }
    if y < top {
        lemma_row_count_upto(c, y, 10);
    } else {
        assert forall|x: int| 0 <= x < 10 implies #[trigger] filled(c, x, y) == filled(
            b,
            x,
            kept[y - top],
        ) by {
            lemma_cleared_filled(b, x, y);
        }
        lemma_rows_alike(c, y, b, kept[y - top], 10);
    }
}

/// The rows of the cleared board from `y` on hold the kept rows from `y - top` on.
pub proof fn lemma_cleared_count_from(b: Seq<Option<Block>>, y: int)
    requires
        0 <= y <= 20,
    ensures
        ({
            let kept = kept_rows(b, 0);
            let top = 20 - kept.len();
            &&& y >= top ==> count_from(cleared_board(b), y) == rows_count(b, kept, y - top)
            &&& y < top ==> count_from(cleared_board(b), y) == count_from(cleared_board(b), top)
        }),
    decreases 20 - y,
{
    lemma_kept_rows_shape(b, 0);
    if y < 20 {
        lemma_cleared_count_from(b, y + 1);
        lemma_cleared_row(b, y);
    }
}

/// Clearing removes ten blocks per full row.
pub proof fn lemma_clear_count(b: Seq<Option<Block>>)
    ensures
        block_count(cleared_board(b)) == block_count(b) - 10 * cleared_count(b),
{
    lemma_kept_rows_shape(b, 0);
    let top = 20 - kept_rows(b, 0).len();
    lemma_cleared_count_from(b, 0);
    lemma_cleared_count_from(b, top);
    lemma_rows_count_kept(b, 0);
    lemma_kept_count(b, 0);
    lemma_cleared_count_is_full_rows(b);
}

/// Rows of `b` holding a cell of `p`, counted with multiplicity, from row `y` on.
pub open spec fn piece_rows_from(p: Piece, y: int) -> int {
    (if cell_y(p, 0) >= y {
        1int
    } else {
        0int
    }) + (if cell_y(p, 1) >= y {
        1int
    } else {
        0int
    }) + (if cell_y(p, 2) >= y {
        1int
    } else {
        0int
    }) + (if cell_y(p, 3) >= y {
        1int
    } else {
        0int
    })
}

/// Distinct cells of the board have distinct indices.
pub proof fn lemma_index_distinct(x1: int, y1: int, x2: int, y2: int)
    requires
        0 <= x1 < 10,
        0 <= x2 < 10,
        x1 != x2 || y1 != y2,
    ensures
        y1 * 10 + x1 != y2 * 10 + x2,
{
    assert(y1 * 10 + x1 != y2 * 10 + x2) by (nonlinear_arith)
        requires
            0 <= x1 < 10,
            0 <= x2 < 10,
            x1 != x2 || y1 != y2,
    ;
}

/// Filling one empty cell (x0, y0) adds one block to its row only.
pub proof fn lemma_fill_row(
    b: Seq<Option<Block>>,
    x0: int,
    y0: int,
    v: Option<Block>,
    y: int,
    n: int,
)
    requires
        b.len() == 200,
        0 <= x0 < 10,
        0 <= y0 < 20,
        0 <= y < 20,
        0 <= n <= 10,
        b[y0 * 10 + x0] is None,
        v is Some,
    ensures
        row_count_upto(b.update(y0 * 10 + x0, v), y, n) == row_count_upto(b, y, n) + (if y == y0
            && x0 < n {
            1int
        } else {
            0int
        }),
    decreases n,
{
    if n > 0 {
        lemma_fill_row(b, x0, y0, v, y, n - 1);
        let x = n - 1;
        if x != x0 || y != y0 {
            lemma_index_distinct(x, y, x0, y0);
        }
        assert(0 <= y * 10 + x < 200);
    }
}

/// Filling one empty cell adds one block to the rows from `y` on that contain it.
pub proof fn lemma_fill_count_from(b: Seq<Option<Block>>, x0: int, y0: int, v: Option<Block>, y: int)
    requires
        b.len() == 200,
        0 <= x0 < 10,
        0 <= y0 < 20,
        0 <= y <= 20,
        b[y0 * 10 + x0] is None,
        v is Some,
    ensures
        count_from(b.update(y0 * 10 + x0, v), y) == count_from(b, y) + (if y <= y0 {
            1int
        } else {
            0int
        }),
    decreases 20 - y,
{
    if y < 20 {
        lemma_fill_count_from(b, x0, y0, v, y + 1);
        lemma_fill_row(b, x0, y0, v, y, 10);
    }
}

/// Cells of `p` have distinct board indices.
pub proof fn lemma_cells_distinct(p: Piece, i: int, j: int)
    requires
        on_board(p),
        0 <= i < 4,
        0 <= j < 4,
        i != j,
    ensures
        cell_index(p, i) != cell_index(p, j),
{
    lemma_shape_cells_distinct(p.kind, p.rotation as int, i, j);
    assert(cell_on_board(p, i) && cell_on_board(p, j));
    lemma_index_distinct(cell_x(p, i), cell_y(p, i), cell_x(p, j), cell_y(p, j));
}

/// Placing the first `n` cells touches only their indices.
pub proof fn lemma_place_unchanged(b: Seq<Option<Block>>, p: Piece, n: int, k: int)
    requires
        b.len() == 200,
        on_board(p),
        0 <= n <= 4,
        0 <= k < 200,
        forall|j: int| 0 <= j < n ==> cell_index(p, j) != k,
    ensures
        place_cells(b, p, n).len() == 200,
        place_cells(b, p, n)[k] == b[k],
    decreases n,
{
    if n > 0 {
        lemma_place_unchanged(b, p, n - 1, k);
        assert(cell_on_board(p, n - 1));
        assert(cell_index(p, n - 1) != k);
    }
}

/// Placing the first `n` cells of a piece that lies on the board over empty
/// cells adds `n` blocks.
pub proof fn lemma_place_count(b: Seq<Option<Block>>, p: Piece, n: int)
    requires
        b.len() == 200,
        on_board(p),
        !collides(b, p),
        0 <= n <= 4,
    ensures
        place_cells(b, p, n).len() == 200,
        block_count(place_cells(b, p, n)) == block_count(b) + n,
    decreases n,
{
    if n > 0 {
        let i = n - 1;
        lemma_place_count(b, p, i);
        assert(cell_on_board(p, i));
        assert forall|j: int| 0 <= j < i implies cell_index(p, j) != cell_index(p, i) by {
            lemma_cells_distinct(p, j, i);
        }
        lemma_place_unchanged(b, p, i, cell_index(p, i));
        assert(!blocked(b, cell_x(p, i), cell_y(p, i)));
        lemma_fill_count_from(
            place_cells(b, p, i),
            cell_x(p, i),
            cell_y(p, i),
            Some(Block { kind: p.kind }),
            0,
        );
    }
}

/// With no full row before, only rows holding a cell of `p` can be full once
/// it is placed; so from row `y` on there are at most as many full rows as
/// cells of `p` at or below `y`.
pub proof fn lemma_place_full_rows(b: Seq<Option<Block>>, p: Piece, y: int)
    requires
        b.len() == 200,
        on_board(p),
        no_full_row(b),
        0 <= y <= 20,
    ensures
        full_rows_from(place_cells(b, p, 4), y) <= piece_rows_from(p, y),
    decreases 20 - y,
{
    if y < 20 {
        lemma_place_full_rows(b, p, y + 1);
        let placed = place_cells(b, p, 4);
        if cell_y(p, 0) != y && cell_y(p, 1) != y && cell_y(p, 2) != y && cell_y(p, 3) != y {
            assert(!row_full(b, y));
            let x = choose|x: int| 0 <= x < 10 && !filled(b, x, y);
            assert forall|j: int| 0 <= j < 4 implies cell_index(p, j) != y * 10 + x by {
                assert(cell_on_board(p, j));
                lemma_index_distinct(cell_x(p, j), cell_y(p, j), x, y);
            }
            lemma_place_unchanged(b, p, 4, y * 10 + x);
            assert(!filled(placed, x, y));
        }
    }
}

/// Locking a piece that lies on the board over empty cells, onto a board
/// without full rows, clears at most four rows.
pub proof fn lemma_place_clears_at_most_four(b: Seq<Option<Block>>, p: Piece)
    requires
        b.len() == 200,
        on_board(p),
        no_full_row(b),
    ensures
        cleared_count(place_cells(b, p, 4)) <= 4,
{
    lemma_place_full_rows(b, p, 0);
    lemma_cleared_count_is_full_rows(place_cells(b, p, 4));
}

/// The empty board holds no block and no full row.
pub proof fn lemma_empty_board(b: Seq<Option<Block>>)
    requires
        b.len() == 200,
        forall|i: int| 0 <= i < 200 ==> #[trigger] b[i] is None,
    ensures
        block_count(b) == 0,
        no_full_row(b),
{
    assert forall|y: int|
        #![trigger row_full(b, y)]
        #![trigger row_count(b, y)]
        0 <= y < 20 implies row_count(b, y) == 0 && !row_full(b, y) by {
        assert forall|x: int| 0 <= x < 10 implies !#[trigger] filled(b, x, y) by {
            assert(0 <= y * 10 + x < 200);
        }
        lemma_row_count_upto(b, y, 10);
        assert(!filled(b, 0, y));
    }
    lemma_empty_count_from(b, 0);
}

/// Rows without blocks count nothing.
pub proof fn lemma_empty_count_from(b: Seq<Option<Block>>, y: int)
    requires
        0 <= y <= 20,
        forall|r: int| 0 <= r < 20 ==> #[trigger] row_count(b, r) == 0,
    ensures
        count_from(b, y) == 0,
    decreases 20 - y,
{
    if y < 20 {
        lemma_empty_count_from(b, y + 1);
        assert(row_count(b, y) == 0);
    }
}

/// Writing a falling piece that fits and lies below the top into a board
/// whose books balance keeps them balanced, and clears at most four rows.
pub proof fn lemma_settle_books(g: GameView)
    requires
        g.board.len() == 200,
        !g.game_over,
        !g.paused,
        !collides(g.board, g.current),
        first_cell_above(g.current) == 4,
        no_full_row(g.board),
        block_count(g.board) == 4 * g.pieces - 10 * g.lines,
    ensures
        g.settled().board.len() == 200,
        g.settled().books_balanced(),
        g.settled().lines <= g.lines + 4,
        g.settled().lines >= g.lines,
        g.settled().pieces == g.pieces + 1,
{
    let p = g.current;
    assert(on_board(p)) by {
        assert(!blocked(g.board, cell_x(p, 0), cell_y(p, 0)));
        assert(!blocked(g.board, cell_x(p, 1), cell_y(p, 1)));
        assert(!blocked(g.board, cell_x(p, 2), cell_y(p, 2)));
        assert(!blocked(g.board, cell_x(p, 3), cell_y(p, 3)));
    }
    let placed = place_cells(g.board, p, 4);
    lemma_place_count(g.board, p, 4);
    lemma_clear_count(placed);
    lemma_place_clears_at_most_four(g.board, p);
    assert forall|r: int| 0 <= r < 20 implies !#[trigger] row_full(cleared_board(placed), r) by {
        lemma_cleared_board_has_no_full_row(placed, r);
    }
}

/// Placing the first `n` cells writes a block of the piece's kind at each.
pub proof fn lemma_place_writes(b: Seq<Option<Block>>, p: Piece, n: int, i: int)
    requires
        b.len() == 200,
        on_board(p),
        0 <= i < n <= 4,
    ensures
        place_cells(b, p, n)[cell_index(p, i)] == Some(Block { kind: p.kind }),
    decreases n,
{
    lemma_place_unchanged(b, p, 0, 0);
    if i < n - 1 {
        lemma_place_writes(b, p, n - 1, i);
        lemma_cells_distinct(p, i, n - 1);
    }
    assert forall|j: int| 0 <= j < n - 1 implies cell_index(p, j) != 200 by {
        assert(cell_on_board(p, j));
    }
    assert(cell_on_board(p, n - 1));
    assert(cell_on_board(p, i));
    lemma_place_len(b, p, n - 1);
}

/// Placing cells of a piece on the board keeps the board's length.
pub proof fn lemma_place_len(b: Seq<Option<Block>>, p: Piece, n: int)
    requires
        b.len() == 200,
        on_board(p),
        0 <= n <= 4,
    ensures
        place_cells(b, p, n).len() == 200,
    decreases n,
{
    if n > 0 {
        lemma_place_len(b, p, n - 1);
        assert(cell_on_board(p, n - 1));
    }
}

/// No full row from `y` on when none is counted.
pub proof fn lemma_no_full_rows_counted(b: Seq<Option<Block>>, y: int)
    requires
        0 <= y <= 20,
        full_rows_from(b, y) == 0,
    ensures
        forall|r: int| y <= r < 20 ==> !#[trigger] row_full(b, r),
    decreases 20 - y,
{
    if y < 20 {
        lemma_kept_len(b, y + 1);
        lemma_no_full_rows_counted(b, y + 1);
    }
}

} // verus!
