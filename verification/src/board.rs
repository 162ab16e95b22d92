//! The playfield: collision, landing, locking and line clearing.
use vstd::prelude::*;

use crate::pieces::{
    at_row, cell_x, cell_y, coords_fit, lemma_shape_offsets_small, shape_table, spawned, Block, Kind,
    Piece, COLS, ROWS,
};

verus! {

/// The playfield, row-major: cell (x, y) is at index `y * COLS + x`, row 0 on top.
pub type Board = [Option<Block>; 200];

/// Cell (x, y) of board `b` holds a block.
pub open spec fn filled(b: Seq<Option<Block>>, x: int, y: int) -> bool {
    b[y * 10 + x] is Some
}

/// A cell at (x, y) is unavailable to a falling piece: it is left, right or
/// below the board, or it lies on the board and holds a block. Rows above the
/// top (y < 0) are free.
pub open spec fn blocked(b: Seq<Option<Block>>, x: int, y: int) -> bool {
    x < 0 || x >= 10 || y >= 20 || (y >= 0 && filled(b, x, y))
}

/// Piece `p` overlaps a wall, the floor or a block of `b`.
pub open spec fn collides(b: Seq<Option<Block>>, p: Piece) -> bool {
    ||| blocked(b, cell_x(p, 0), cell_y(p, 0))
    ||| blocked(b, cell_x(p, 1), cell_y(p, 1))
    ||| blocked(b, cell_x(p, 2), cell_y(p, 2))
    ||| blocked(b, cell_x(p, 3), cell_y(p, 3))
}

/// The row where `p` comes to rest when it falls straight down: the first row
/// from `p.y` on from which one more step down would collide.
pub open spec fn landing_row(b: Seq<Option<Block>>, p: Piece) -> int
    decreases 21 - p.y,
{
    if p.y >= 21 || collides(b, at_row(p, p.y + 1)) {
        p.y as int
    } else {
        landing_row(b, at_row(p, p.y + 1))
    }
}

/// The piece `p` after falling as far as it can.
pub open spec fn landed(b: Seq<Option<Block>>, p: Piece) -> Piece {
    at_row(p, landing_row(b, p))
}

/// Some cell of `p` is at (x, y).
pub open spec fn occupies(p: Piece, x: int, y: int) -> bool {
    ||| cell_x(p, 0) == x && cell_y(p, 0) == y
    ||| cell_x(p, 1) == x && cell_y(p, 1) == y
    ||| cell_x(p, 2) == x && cell_y(p, 2) == y
    ||| cell_x(p, 3) == x && cell_y(p, 3) == y
}

/// Index of cell `i` of `p` in the row-major board.
pub open spec fn cell_index(p: Piece, i: int) -> int {
    cell_y(p, i) * 10 + cell_x(p, i)
}

/// Cell `i` of `p` lies on the board.
pub open spec fn cell_on_board(p: Piece, i: int) -> bool {
    0 <= cell_x(p, i) < 10 && 0 <= cell_y(p, i) < 20
}

/// Every cell of `p` lies on the board.
pub open spec fn on_board(p: Piece) -> bool {
    &&& cell_on_board(p, 0)
    &&& cell_on_board(p, 1)
    &&& cell_on_board(p, 2)
    &&& cell_on_board(p, 3)
}

/// `b` with the first `n` cells of `p` filled by blocks of `p`'s kind.
pub open spec fn place_cells(b: Seq<Option<Block>>, p: Piece, n: int) -> Seq<Option<Block>>
    decreases n,
{
    if n <= 0 {
        b
    } else {
        place_cells(b, p, n - 1).update(cell_index(p, n - 1), Some(Block { kind: p.kind }))
    }
}

/// Every cell of row `y` holds a block.
pub open spec fn row_full(b: Seq<Option<Block>>, y: int) -> bool {
    forall|x: int| 0 <= x < 10 ==> #[trigger] filled(b, x, y)
}

/// The rows from `y` down to the floor that are not full, top to bottom.
pub open spec fn kept_rows(b: Seq<Option<Block>>, y: int) -> Seq<int>
    decreases 20 - y,
{
    if y >= 20 {
        seq![]
    } else if row_full(b, y) {
        kept_rows(b, y + 1)
    } else {
        seq![y].add(kept_rows(b, y + 1))
    }
}

/// How many full rows `b` has.
pub open spec fn cleared_count(b: Seq<Option<Block>>) -> nat {
    (20 - kept_rows(b, 0).len()) as nat
}

/// Cell (x, y) after the full rows of `b` are removed: the rows that are not
/// full keep their order and rest on the floor; empty rows fill the top.
pub open spec fn cleared_cell(b: Seq<Option<Block>>, x: int, y: int) -> Option<Block> {
    let kept = kept_rows(b, 0);
    let top = 20 - kept.len();
    if y < top {
        None
    } else {
        b[kept[y - top] * 10 + x]
    }
}

/// The board `b` after its full rows are removed.
pub open spec fn cleared_board(b: Seq<Option<Block>>) -> Seq<Option<Block>> {
    Seq::new(200, |i: int| cleared_cell(b, i % 10, i / 10))
}

/// Splits a board index into its column and row.
pub proof fn lemma_index_parts(i: int)
    requires
        0 <= i < 200,
    ensures
        0 <= i % 10 < 10,
        0 <= i / 10 < 20,
        i == (i / 10) * 10 + i % 10,
{
    assert(0 <= i % 10 < 10 && 0 <= i / 10 < 20 && i == (i / 10) * 10 + i % 10) by (nonlinear_arith)
        requires
            0 <= i < 200,
    ;
}

/// The rows kept from `y` on are increasing rows in `y..20`, at most `20 - y` of them.
pub proof fn lemma_kept_rows_shape(b: Seq<Option<Block>>, y: int)
    requires
        0 <= y <= 20,
    ensures
        kept_rows(b, y).len() <= 20 - y,
        forall|j: int| 0 <= j < kept_rows(b, y).len() ==> y <= #[trigger] kept_rows(b, y)[j] < 20,
    decreases 20 - y,
{
    if y < 20 {
        lemma_kept_rows_shape(b, y + 1);
    }
}

/// Shifting a piece's pivot moves each of its cells by the same amount.
pub proof fn lemma_fit_moves(p: Piece, y: int)
    requires
        coords_fit(p),
        p.y <= y <= 21,
        p.y <= 20,
    ensures
        coords_fit(at_row(p, y)),
{
    lemma_shape_offsets_small(p.kind, p.rotation as int, 0);
    lemma_shape_offsets_small(p.kind, p.rotation as int, 1);
    lemma_shape_offsets_small(p.kind, p.rotation as int, 2);
    lemma_shape_offsets_small(p.kind, p.rotation as int, 3);
}

/// Does `piece` overlap a wall, the floor or a locked block?
pub fn collides_on_board(board: &Board, piece: Piece) -> (r: bool)
    requires
        coords_fit(piece),
    ensures
        r == collides(board@, piece),
{
    let cells = piece.cells();
    let mut i: usize = 0;
    while i < 4
        invariant
            0 <= i <= 4,
            forall|j: int|
                0 <= j < 4 ==> #[trigger] cells@[j].0 == cell_x(piece, j) && cells@[j].1 == cell_y(
                    piece,
                    j,
                ),
            forall|j: int| 0 <= j < i ==> !blocked(board@, cell_x(piece, j), cell_y(piece, j)),
        decreases 4 - i,
    {
        let (x, y) = cells[i];
        assert(cells@[i as int].0 == cell_x(piece, i as int));
        if x < 0 || x >= COLS as i32 || y >= ROWS as i32 || (y >= 0 && board[y as usize * COLS
            + x as usize].is_some()) {
            return true;
        }
        i += 1;
    }
    false
}

/// Does row `y` hold a block in every column?
fn row_is_full(board: &Board, y: usize) -> (r: bool)
    requires
        y < 20,
    ensures
        r == row_full(board@, y as int),
{
    let mut x: usize = 0;
    while x < COLS
        invariant
            y < 20,
            0 <= x <= 10,
            forall|x2: int| 0 <= x2 < x ==> #[trigger] filled(board@, x2, y as int),
        decreases 10 - x,
    {
        if board[y * COLS + x].is_none() {
            assert(!filled(board@, x as int, y as int));
            return false;
        }
        x += 1;
    }
    true
}

/// Overwrites row `to` with a copy of row `from`.
fn copy_row(board: &mut Board, from: usize, to: usize)
    requires
        from < 20,
        to < 20,
    ensures
        forall|x: int, y: int|
            0 <= x < 10 && 0 <= y < 20 ==> #[trigger] final(board)@[y * 10 + x] == if y == to {
                old(board)@[from * 10 + x]
            } else {
                old(board)@[y * 10 + x]
            },
{
    let ghost orig = board@;
    let mut x: usize = 0;
    while x < COLS
        invariant
            from < 20,
            to < 20,
            0 <= x <= 10,
            board@.len() == 200,
            forall|x2: int, y: int|
                0 <= x2 < 10 && 0 <= y < 20 ==> #[trigger] board@[y * 10 + x2] == if y == to && x2
                    < x {
                    orig[from * 10 + x2]
                } else {
                    orig[y * 10 + x2]
                },
        decreases 10 - x,
    {
        let c = board[from * COLS + x];
        board[to * COLS + x] = c;
        x += 1;
    }
}

/// Empties row `y`.
fn clear_row(board: &mut Board, row: usize)
    requires
        row < 20,
    ensures
        forall|x: int, y: int|
            0 <= x < 10 && 0 <= y < 20 ==> #[trigger] final(board)@[y * 10 + x] == if y == row {
                None
            } else {
                old(board)@[y * 10 + x]
            },
{
    let ghost orig = board@;
    let mut x: usize = 0;
    while x < COLS
        invariant
            row < 20,
            0 <= x <= 10,
            board@.len() == 200,
            forall|x2: int, y: int|
                0 <= x2 < 10 && 0 <= y < 20 ==> #[trigger] board@[y * 10 + x2] == if y == row && x2
                    < x {
                    None
                } else {
                    orig[y * 10 + x2]
                },
        decreases 10 - x,
    {
        board[row * COLS + x] = None;
        x += 1;
    }
}

/// Removes every full row: the other rows keep their order and drop to the
/// floor, and empty rows fill the top. Returns how many rows were removed.
pub fn clear_lines_on_board(board: &mut Board) -> (cleared: u32)
    ensures
        final(board)@ == cleared_board(old(board)@),
        cleared == cleared_count(old(board)@),
{
    let ghost orig = board@;
    let mut write_y: i32 = 19;
    let mut cleared: u32 = 0;
    let mut read_y: usize = 20;
    proof {
        lemma_kept_rows_shape(orig, 20);
    }
    while read_y > 0
        invariant
            0 <= read_y <= 20,
            board@.len() == 200,
            orig.len() == 200,
            kept_rows(orig, read_y as int).len() <= 20 - read_y,
            forall|j: int|
                0 <= j < kept_rows(orig, read_y as int).len() ==> read_y <= #[trigger] kept_rows(
                    orig,
                    read_y as int,
                )[j] < 20,
            write_y == 19 - kept_rows(orig, read_y as int).len(),
            cleared == 20 - read_y - kept_rows(orig, read_y as int).len(),
            forall|x: int, w: int|
                0 <= x < 10 && write_y < w < 20 ==> #[trigger] board@[w * 10 + x] == orig[kept_rows(
                    orig,
                    read_y as int,
                )[w - write_y - 1] * 10 + x],
            forall|x: int, r: int|
                0 <= x < 10 && 0 <= r < read_y ==> #[trigger] board@[r * 10 + x] == orig[r * 10
                    + x],
        decreases read_y,
    {
        read_y -= 1;
        let ghost before = board@;
        let ghost k_below = kept_rows(orig, read_y as int + 1);
        proof {
            lemma_kept_rows_shape(orig, read_y as int);
            assert(row_full(before, read_y as int) == row_full(orig, read_y as int)) by {
                assert forall|x: int|
                    #![trigger filled(before, x, read_y as int)]
                    #![trigger filled(orig, x, read_y as int)]
                    0 <= x < 10 implies filled(before, x, read_y as int) == filled(
                        orig,
                        x,
                        read_y as int,
                    ) by {
                    assert(before[read_y * 10 + x] == orig[read_y * 10 + x]);
                }
            }
        }
        if row_is_full(board, read_y) {
            cleared += 1;
        } else {
            copy_row(board, read_y, write_y as usize);
            write_y -= 1;
            proof {
                let k = kept_rows(orig, read_y as int);
                assert(k == seq![read_y as int].add(k_below));
                assert forall|x: int, w: int|
                    0 <= x < 10 && write_y < w < 20 implies #[trigger] board@[w * 10 + x]
                    == orig[k[w - write_y - 1] * 10 + x] by {
                    if w == write_y + 1 {
                        assert(board@[w * 10 + x] == before[read_y * 10 + x]);
                    } else {
                        assert(board@[w * 10 + x] == before[w * 10 + x]);
                        assert(k[w - write_y - 1] == k_below[w - write_y - 2]);
                    }
                }
            }
        }
    }
    let mut y: i32 = 0;
    let ghost kept = kept_rows(orig, 0);
    while y <= write_y
        invariant
            0 <= y <= write_y + 1,
            write_y == 19 - kept.len(),
            kept == kept_rows(orig, 0),
            board@.len() == 200,
            forall|x: int, w: int|
                0 <= x < 10 && write_y < w < 20 ==> #[trigger] board@[w * 10 + x] == orig[kept[w
                    - write_y - 1] * 10 + x],
            forall|x: int, w: int| 0 <= x < 10 && 0 <= w < y ==> #[trigger] board@[w * 10 + x] is None,
        decreases write_y + 1 - y,
    {
        clear_row(board, y as usize);
        y += 1;
    }
    proof {
        assert forall|i: int| 0 <= i < 200 implies #[trigger] board@[i] == cleared_board(orig)[i] by {
            lemma_index_parts(i);
            let x = i % 10;
            let w = i / 10;
            assert(board@[w * 10 + x] == cleared_cell(orig, x, w));
        }
        assert(board@ =~= cleared_board(orig));
    }
    cleared
}

/// A piece whose pivot is two or more rows below the floor overlaps it.
pub proof fn lemma_deep_collides(b: Seq<Option<Block>>, p: Piece)
    requires
        p.y >= 21,
    ensures
        collides(b, p),
{
    lemma_shape_offsets_small(p.kind, p.rotation as int, 0);
}

/// Cell 1 of every shape sits on the pivot's row, so a piece whose pivot is on
/// the floor row or lower overlaps the floor.
pub proof fn lemma_floor_collides(b: Seq<Option<Block>>, p: Piece)
    requires
        p.y >= 20,
    ensures
        collides(b, p),
{
    assert(shape_table(p.kind, p.rotation as int)[1].1 == 0);
}

/// Lets `piece` fall until one more step would collide. `None` when the piece
/// already collides where it starts.
pub fn landing_piece(board: &Board, piece: Piece) -> (r: Option<Piece>)
    requires
        coords_fit(piece),
    ensures
        collides(board@, piece) ==> r is None,
        !collides(board@, piece) ==> r == Some(landed(board@, piece)),
{
    if collides_on_board(board, piece) {
        return None;
    }
    proof {
        if piece.y >= 20 {
            lemma_floor_collides(board@, piece);
        }
    }
    Some(fall(board, piece))
}

/// Lets `piece` fall row by row until one more step would collide.
pub fn fall(board: &Board, piece: Piece) -> (r: Piece)
    requires
        coords_fit(piece),
        piece.y <= 20,
    ensures
        r == landed(board@, piece),
{
    let mut p = piece;
    proof {
        lemma_fit_moves(piece, p.y + 1);
    }
    loop
        invariant
            coords_fit(piece),
            piece.y <= p.y <= 20,
            piece.y <= 20,
            p == at_row(piece, p.y as int),
            landing_row(board@, p) == landing_row(board@, piece),
            coords_fit(at_row(piece, p.y + 1)),
        ensures
            p == at_row(piece, p.y as int),
            landing_row(board@, p) == landing_row(board@, piece),
            collides(board@, at_row(p, p.y + 1)),
        decreases 20 - p.y,
    {
        let below = Piece { y: p.y + 1, ..p };
        if collides_on_board(board, below) {
            break;
        }
        proof {
            if p.y + 1 >= 21 {
                lemma_deep_collides(board@, at_row(p, p.y + 1));
            }
        }
        p = below;
        proof {
            lemma_fit_moves(piece, p.y + 1);
        }
    }
    proof {
        assert(landing_row(board@, p) == p.y);
        assert(at_row(piece, p.y as int) == p);
    }
    p
}

/// Locks `piece` onto a copy of `board` and removes the full rows. `None` when
/// some cell of the piece lies off the board (above the top included).
pub fn lock_piece_on_board(board: &Board, piece: Piece) -> (r: Option<(Board, u32)>)
    requires
        coords_fit(piece),
    ensures
        r is Some <==> on_board(piece),
        r matches Some((next, cleared)) ==> next@ == cleared_board(place_cells(board@, piece, 4))
            && cleared == cleared_count(place_cells(board@, piece, 4)),
{
    let mut next: Board = *board;
    let cells = piece.cells();
    let mut i: usize = 0;
    while i < 4
        invariant
            0 <= i <= 4,
            forall|j: int|
                0 <= j < 4 ==> #[trigger] cells@[j].0 == cell_x(piece, j) && cells@[j].1 == cell_y(
                    piece,
                    j,
                ),
            forall|j: int| 0 <= j < i ==> cell_on_board(piece, j),
            next@ == place_cells(board@, piece, i as int),
        decreases 4 - i,
    {
        let (x, y) = cells[i];
        assert(cells@[i as int].0 == cell_x(piece, i as int));
        if y < 0 || x < 0 || x >= COLS as i32 || y >= ROWS as i32 {
            return None;
        }
        next[y as usize * COLS + x as usize] = Some(Block { kind: piece.kind });
        i += 1;
    }
    let cleared = clear_lines_on_board(&mut next);
    Some((next, cleared))
}

/// A piece that can be placed without colliding can be computed in `i32`
/// wherever it falls to.
pub proof fn lemma_landed_fits(b: Seq<Option<Block>>, p: Piece)
    requires
        coords_fit(p),
        !collides(b, p),
    ensures
        coords_fit(landed(b, p)),
        landed(b, p).y >= p.y,
        landed(b, p).y <= 19,
        landed(b, p).x == p.x,
        landed(b, p).kind == p.kind,
        landed(b, p).rotation == p.rotation,
{
    if p.y >= 20 {
        lemma_floor_collides(b, p);
    }
    lemma_landing_row_range(b, p);
    lemma_fit_moves(p, landing_row(b, p));
}

/// The landing row lies between the start row and the floor.
pub proof fn lemma_landing_row_range(b: Seq<Option<Block>>, p: Piece)
    requires
        !collides(b, p),
    ensures
        p.y <= landing_row(b, p) <= 19,
        !collides(b, landed(b, p)),
    decreases 21 - p.y,
{
    if p.y >= 20 {
        lemma_floor_collides(b, p);
    }
    if !(p.y >= 21 || collides(b, at_row(p, p.y + 1))) {
        lemma_landing_row_range(b, at_row(p, p.y + 1));
        assert(at_row(at_row(p, p.y + 1), landing_row(b, p)) == at_row(p, landing_row(b, p)));
    } else {
        assert(at_row(p, p.y as int) == p);
    }
}

/// A piece that overlaps nothing has its pivot within a column of the board
/// (or just left of it, for O) and above the floor.
pub proof fn lemma_fitting_piece_bounds(b: Seq<Option<Block>>, p: Piece)
    requires
        !collides(b, p),
    ensures
        -1 <= p.x <= 9,
        p.y <= 19,
{
    assert(shape_table(p.kind, p.rotation as int)[1].1 == 0);
    assert(0 <= shape_table(p.kind, p.rotation as int)[1].0 <= 1);
}

/// A freshly spawned piece fits on an empty board.
pub proof fn lemma_spawn_fits_empty(b: Seq<Option<Block>>, kind: Kind)
    requires
        b.len() == 200,
        forall|i: int| 0 <= i < 200 ==> #[trigger] b[i] is None,
    ensures
        !collides(b, spawned(kind)),
{
    let p = spawned(kind);
    assert forall|i: int| 0 <= i < 4 implies !blocked(b, cell_x(p, i), cell_y(p, i)) by {
        lemma_shape_offsets_small(kind, 0, i);
        if cell_y(p, i) >= 0 {
            assert(b[cell_y(p, i) * 10 + cell_x(p, i)] is None);
        }
    }
}

} // verus!
