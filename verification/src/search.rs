//! The placements the search considers: every rotation and column from which
//! a piece can fall onto the board and lock there.
use vstd::prelude::*;

use crate::accounting::{
    block_count, lemma_clear_count, lemma_place_clears_at_most_four, lemma_place_count, no_full_row,
};
use crate::board::{
    lemma_landing_row_range, row_full,
    cleared_board, cleared_count, collides, landed, landing_piece, lock_piece_on_board, on_board,
    place_cells, Board,
};
use crate::laws::lemma_cleared_board_has_no_full_row;
use crate::pieces::{coords_fit, Block, Kind, Piece, COLS};

verus! {

/// One way to drop a piece: the rotation and column it falls in, and the
/// board it leaves behind once its full rows are cleared.
pub struct Placement {
    pub rotation: usize,
    pub x: i32,
    pub board: Board,
    pub cleared: u32,
}

/// The mathematical value of a [`Placement`].
pub struct PlacementView {
    pub rotation: usize,
    pub x: i32,
    pub board: Seq<Option<Block>>,
    pub cleared: nat,
}

impl View for Placement {
    type V = PlacementView;

    open spec fn view(&self) -> PlacementView {
        PlacementView {
            rotation: self.rotation,
            x: self.x,
            board: self.board@,
            cleared: self.cleared as nat,
        }
    }
}

/// The piece of `kind` turned `rotation` with its pivot at (`x`, `start_y`).
pub open spec fn start_piece(kind: Kind, start_y: i32, rotation: usize, x: i32) -> Piece {
    Piece { kind, rotation, x, y: start_y }
}

/// Where the piece of `kind` turned `rotation` ends when dropped from
/// (`x`, `start_y`): `None` when it collides at the start or comes to rest
/// with a cell off the board; otherwise the resulting board, lines cleared.
pub open spec fn placement_at(
    b: Seq<Option<Block>>,
    kind: Kind,
    start_y: i32,
    rotation: usize,
    x: i32,
) -> Option<PlacementView> {
    let p = start_piece(kind, start_y, rotation, x);
    if collides(b, p) {
        None
    } else {
        let l = landed(b, p);
        if on_board(l) {
            Some(
                PlacementView {
                    rotation,
                    x: l.x,
                    board: cleared_board(place_cells(b, l, 4)),
                    cleared: cleared_count(place_cells(b, l, 4)),
                },
            )
        } else {
            None
        }
    }
}

/// The placements of rotation `rotation` from the columns `-3..n - 3`, left to right.
pub open spec fn placements_in_rotation(
    b: Seq<Option<Block>>,
    kind: Kind,
    start_y: i32,
    rotation: usize,
    n: int,
) -> Seq<PlacementView>
    decreases n,
{
    if n <= 0 {
        seq![]
    } else {
        let before = placements_in_rotation(b, kind, start_y, rotation, n - 1);
        match placement_at(b, kind, start_y, rotation, (n - 4) as i32) {
            Some(c) => before.push(c),
            None => before,
        }
    }
}

/// The placements of rotations `0..r`, each over the columns `-3..13`.
pub open spec fn placements_upto(b: Seq<Option<Block>>, kind: Kind, start_y: i32, r: int) -> Seq<
    PlacementView,
>
    decreases r,
{
    if r <= 0 {
        seq![]
    } else {
        placements_upto(b, kind, start_y, r - 1) + placements_in_rotation(
            b,
            kind,
            start_y,
            (r - 1) as usize,
            16,
        )
    }
}

/// Every start position the search tries can be computed in `i32`.
pub open spec fn start_row_fits(kind: Kind, start_y: i32) -> bool {
    forall|rotation: usize, x: i32|
        rotation < 4 && -3 <= x < 13 ==> #[trigger] coords_fit(
            start_piece(kind, start_y, rotation, x),
        )
}

/// Every placement of a piece of `kind` dropped from row `start_y`, rotations
/// `0..4` in order and, within each, columns `-3..13` from left to right.
pub fn placements(board: &Board, kind: Kind, start_y: i32) -> (r: Vec<Placement>)
    requires
        start_row_fits(kind, start_y),
    ensures
        r@.map_values(|p: Placement| p@) == placements_upto(board@, kind, start_y, 4),
        forall|i: int|
            #![trigger r@[i]]
            0 <= i < r@.len() ==> block_count(r@[i].board@) == block_count(board@) + 4 - 10
                * r@[i].cleared,
        forall|i: int| #![trigger r@[i]] 0 <= i < r@.len() ==> no_full_row(r@[i].board@),
        forall|i: int|
            #![trigger r@[i]]
            0 <= i < r@.len() ==> no_full_row(board@) ==> r@[i].cleared <= 4,
{
    let mut found: Vec<Placement> = Vec::new();
    let mut rotation: usize = 0;
    while rotation < 4
        invariant
            0 <= rotation <= 4,
            start_row_fits(kind, start_y),
            found@.map_values(|p: Placement| p@) == placements_upto(
                board@,
                kind,
                start_y,
                rotation as int,
            ),
        decreases 4 - rotation,
    {
        let ghost done = found@.map_values(|p: Placement| p@);
        let mut x: i32 = -3;
        while x < COLS as i32 + 3
            invariant
                0 <= rotation < 4,
                -3 <= x <= 13,
                start_row_fits(kind, start_y),
                done == placements_upto(board@, kind, start_y, rotation as int),
                found@.map_values(|p: Placement| p@) == done + placements_in_rotation(
                    board@,
                    kind,
                    start_y,
                    rotation,
                    x + 3,
                ),
            decreases 13 - x,
        {
            let ghost before = found@.map_values(|p: Placement| p@);
            let piece = Piece { kind, rotation, x, y: start_y };
            assert(coords_fit(start_piece(kind, start_y, rotation, x)));
            let landing = landing_piece(board, piece);
            match landing {
                Some(l) => {
                    proof {
                        crate::board::lemma_landed_fits(board@, piece);
                    }
                    let locked = lock_piece_on_board(board, l);
                    match locked {
                        Some((next, cleared)) => {
                            let candidate = Placement { rotation, x: l.x, board: next, cleared };
                            found.push(candidate);
                            assert(found@.map_values(|p: Placement| p@) =~= before.push(
                                candidate@,
                            ));
                        },
                        None => {},
                    }
                },
                None => {},
            }
            assert(placements_in_rotation(board@, kind, start_y, rotation, x + 4) == {
                let prev = placements_in_rotation(board@, kind, start_y, rotation, x + 3);
                match placement_at(board@, kind, start_y, rotation, x) {
                    Some(c) => prev.push(c),
                    None => prev,
                }
            });
            x += 1;
        }
        rotation += 1;
    }
    proof {
        lemma_upto_placements_account(board@, kind, start_y, 4);
        let all = placements_upto(board@, kind, start_y, 4);
        assert forall|i: int| 0 <= i < found@.len() implies placement_accounts(
            board@,
            #[trigger] found@[i]@,
        ) by {
            assert(found@.map_values(|p: Placement| p@)[i] == found@[i]@);
            assert(placement_accounts(board@, all[i]));
        }
        assert forall|i: int|
            #![trigger found@[i]]
            0 <= i < found@.len() implies block_count(found@[i].board@) == block_count(board@) + 4 - 10 * found@[i].cleared && no_full_row(found@[i].board@) && (
        no_full_row(board@) ==> found@[i].cleared <= 4) by {
            assert(placement_accounts(board@, found@[i]@));
        }
    }
    found
}

/// What every placement satisfies: its board holds the blocks of the old
/// board plus the piece's four, less ten per cleared row, and none of its rows
/// is full; from a board without full rows at most four rows are cleared.
pub open spec fn placement_accounts(b: Seq<Option<Block>>, pv: PlacementView) -> bool {
    &&& pv.board.len() == 200
    &&& block_count(pv.board) == block_count(b) + 4 - 10 * pv.cleared
    &&& no_full_row(pv.board)
    &&& no_full_row(b) ==> pv.cleared <= 4
}

/// A single placement keeps the block count: four blocks in, ten per cleared
/// row out.
pub proof fn lemma_placement_at_accounts(
    b: Seq<Option<Block>>,
    kind: Kind,
    start_y: i32,
    rotation: usize,
    x: i32,
)
    requires
        b.len() == 200,
    ensures
        placement_at(b, kind, start_y, rotation, x) matches Some(pv) ==> placement_accounts(b, pv),
{
    let p = start_piece(kind, start_y, rotation, x);
    if !collides(b, p) {
        let l = landed(b, p);
        if on_board(l) {
            lemma_landing_row_range(b, p);
            let placed = place_cells(b, l, 4);
            lemma_place_count(b, l, 4);
            lemma_clear_count(placed);
            assert forall|r: int| 0 <= r < 20 implies !#[trigger] row_full(
                cleared_board(placed),
                r,
            ) by {
                lemma_cleared_board_has_no_full_row(placed, r);
            }
            if no_full_row(b) {
                lemma_place_clears_at_most_four(b, l);
            }
        }
    }
}

/// Every placement of one rotation keeps the block count.
pub proof fn lemma_rotation_placements_account(
    b: Seq<Option<Block>>,
    kind: Kind,
    start_y: i32,
    rotation: usize,
    n: int,
)
    requires
        b.len() == 200,
    ensures
        forall|i: int|
            0 <= i < placements_in_rotation(b, kind, start_y, rotation, n).len()
                ==> placement_accounts(
                b,
                #[trigger] placements_in_rotation(b, kind, start_y, rotation, n)[i],
            ),
    decreases n,
{
    if n > 0 {
        lemma_rotation_placements_account(b, kind, start_y, rotation, n - 1);
        lemma_placement_at_accounts(b, kind, start_y, rotation, (n - 4) as i32);
        let before = placements_in_rotation(b, kind, start_y, rotation, n - 1);
        let now = placements_in_rotation(b, kind, start_y, rotation, n);
        assert forall|i: int| 0 <= i < now.len() implies placement_accounts(b, #[trigger] now[i]) by {
            if i < before.len() {
                assert(now[i] == before[i]);
            }
        }
    }
}

/// Every placement of rotations `0..r` keeps the block count.
pub proof fn lemma_upto_placements_account(b: Seq<Option<Block>>, kind: Kind, start_y: i32, r: int)
    requires
        b.len() == 200,
        0 <= r <= 4,
    ensures
        forall|i: int|
            0 <= i < placements_upto(b, kind, start_y, r).len() ==> placement_accounts(
                b,
                #[trigger] placements_upto(b, kind, start_y, r)[i],
            ),
    decreases r,
{
    if r > 0 {
        lemma_upto_placements_account(b, kind, start_y, r - 1);
        lemma_rotation_placements_account(b, kind, start_y, (r - 1) as usize, 16);
        let a = placements_upto(b, kind, start_y, r - 1);
        let c = placements_in_rotation(b, kind, start_y, (r - 1) as usize, 16);
        let all = placements_upto(b, kind, start_y, r);
        assert forall|i: int| 0 <= i < all.len() implies placement_accounts(b, #[trigger] all[i]) by {
            if i < a.len() {
                assert(all[i] == a[i]);
            } else {
                assert(all[i] == c[i - a.len()]);
            }
        }
    }
}

/// Every placement the search lists keeps the block count: the blocks of
/// its board are the old blocks plus four, less ten per cleared row; its
/// board has no full row; and from a board without full rows it clears at
/// most four.
pub proof fn lemma_placements_account(b: Seq<Option<Block>>, kind: Kind, start_y: i32)
    requires
        b.len() == 200,
    ensures
        forall|i: int|
            0 <= i < placements_upto(b, kind, start_y, 4).len() ==> {
                let pv = #[trigger] placements_upto(b, kind, start_y, 4)[i];
                &&& block_count(pv.board) == block_count(b) + 4 - 10 * pv.cleared
                &&& no_full_row(pv.board)
                &&& no_full_row(b) ==> pv.cleared <= 4
            },
{
    lemma_upto_placements_account(b, kind, start_y, 4);
}

} // verus!
