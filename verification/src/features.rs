//! Integer measurements of a board that the placement search scores:
//! column heights, holes, wells, bumpiness and the like.
use vstd::prelude::*;

use crate::board::{filled, Board};
use crate::pieces::{Block, COLS, ROWS};

verus! {

/// The first row from `y` down to the floor where column `x` holds a block,
/// or 20 when there is none.
pub open spec fn top_filled(b: Seq<Option<Block>>, x: int, y: int) -> int
    decreases 20 - y,
{
    if y >= 20 {
        20
    } else if filled(b, x, y) {
        y
    } else {
        top_filled(b, x, y + 1)
    }
}

/// Height of column `x`: the number of rows from its topmost block to the
/// floor, 0 for an empty column.
pub open spec fn column_height(b: Seq<Option<Block>>, x: int) -> int {
    20 - top_filled(b, x, 0)
}

/// The number of empty cells of column `x` in rows `y..20`.
pub open spec fn empty_from(b: Seq<Option<Block>>, x: int, y: int) -> int
    decreases 20 - y,
{
    if y >= 20 {
        0
    } else {
        (if filled(b, x, y) {
            0int
        } else {
            1int
        }) + empty_from(b, x, y + 1)
    }
}

/// Holes of column `x`: empty cells below its topmost block.
pub open spec fn column_holes(b: Seq<Option<Block>>, x: int) -> int {
    empty_from(b, x, top_filled(b, x, 0))
}

/// Holes of the columns `0..n`.
pub open spec fn holes_upto(b: Seq<Option<Block>>, n: int) -> int
    decreases n,
{
    if n <= 0 {
        0
    } else {
        holes_upto(b, n - 1) + column_holes(b, n - 1)
    }
}

/// Depth of the well at column `x` of the heights `h`: how far the lower of
/// its two neighbours rises above it (the walls count as height 20), or 0.
pub open spec fn well_depth(h: Seq<i32>, x: int) -> int {
    let left: int = if x == 0 {
        20
    } else {
        h[x - 1] as int
    };
    let right: int = if x == 9 {
        20
    } else {
        h[x + 1] as int
    };
    let rim = if left < right {
        left
    } else {
        right
    };
    if rim > h[x] {
        rim - h[x]
    } else {
        0
    }
}

/// Sum of the well depths of columns `0..n`.
pub open spec fn wells_upto(h: Seq<i32>, n: int) -> int
    decreases n,
{
    if n <= 0 {
        0
    } else {
        wells_upto(h, n - 1) + well_depth(h, n - 1)
    }
}

/// Heights of the ten columns of `b`.
pub open spec fn heights_of(b: Seq<Option<Block>>) -> Seq<i32> {
    Seq::new(10, |x: int| column_height(b, x) as i32)
}

/// Sum of `h[0..n]`.
pub open spec fn sum_upto(h: Seq<i32>, n: int) -> int
    decreases n,
{
    if n <= 0 {
        0
    } else {
        sum_upto(h, n - 1) + h[n - 1]
    }
}

/// The largest of `0` and `h[0..n]`.
pub open spec fn max_upto(h: Seq<i32>, n: int) -> int
    decreases n,
{
    if n <= 0 {
        0
    } else if max_upto(h, n - 1) >= h[n - 1] {
        max_upto(h, n - 1)
    } else {
        h[n - 1] as int
    }
}

/// Sum of the height steps between neighbouring columns among `0..n + 1`.
pub open spec fn bumps_upto(h: Seq<i32>, n: int) -> int
    decreases n,
{
    if n <= 0 {
        0
    } else {
        bumps_upto(h, n - 1) + (if h[n - 1] >= h[n] {
            h[n - 1] - h[n]
        } else {
            h[n] - h[n - 1]
        })
    }
}

/// How many of `h[0..n]` reach height 16 or more.
pub open spec fn tall_upto(h: Seq<i32>, n: int) -> int
    decreases n,
{
    if n <= 0 {
        0
    } else {
        tall_upto(h, n - 1) + (if h[n - 1] >= 16 {
            1int
        } else {
            0int
        })
    }
}

/// Column heights lie in `0..=20`.
pub proof fn lemma_top_filled_range(b: Seq<Option<Block>>, x: int, y: int)
    requires
        0 <= y <= 20,
    ensures
        y <= top_filled(b, x, y) <= 20,
        top_filled(b, x, y) < 20 ==> filled(b, x, top_filled(b, x, y)),
    decreases 20 - y,
{
    if y < 20 {
        lemma_top_filled_range(b, x, y + 1);
    }
}

/// A column has at most as many empty cells as rows.
pub proof fn lemma_empty_from_range(b: Seq<Option<Block>>, x: int, y: int)
    requires
        0 <= y <= 20,
    ensures
        0 <= empty_from(b, x, y) <= 20 - y,
    decreases 20 - y,
{
    if y < 20 {
        lemma_empty_from_range(b, x, y + 1);
    }
}

/// The holes of `n` columns number at most `20 * n`.
pub proof fn lemma_holes_upto_range(b: Seq<Option<Block>>, n: int)
    requires
        0 <= n <= 10,
    ensures
        0 <= holes_upto(b, n) <= 20 * n,
    decreases n,
{
    if n > 0 {
        lemma_holes_upto_range(b, n - 1);
        lemma_top_filled_range(b, n - 1, 0);
        lemma_empty_from_range(b, n - 1, top_filled(b, n - 1, 0));
    }
}

/// Height of every column of `board`.
pub fn column_heights(board: &Board) -> (heights: [i32; 10])
    ensures
        forall|x: int| 0 <= x < 10 ==> #[trigger] heights@[x] == column_height(board@, x),
        forall|x: int| 0 <= x < 10 ==> 0 <= #[trigger] heights@[x] <= 20,
{
    let mut heights: [i32; 10] = [0; 10];
    let mut x: usize = 0;
    while x < COLS
        invariant
            0 <= x <= 10,
            forall|x2: int| 0 <= x2 < x ==> #[trigger] heights@[x2] == column_height(board@, x2),
            forall|x2: int| 0 <= x2 < x ==> 0 <= #[trigger] heights@[x2] <= 20,
            forall|x2: int| x <= x2 < 10 ==> #[trigger] heights@[x2] == 0,
        decreases 10 - x,
    {
        let mut y: usize = 0;
        while y < ROWS
            invariant_except_break
                top_filled(board@, x as int, 0) == top_filled(board@, x as int, y as int),
                heights@[x as int] == 0,
            invariant
                0 <= x < 10,
                0 <= y <= 20,
                forall|x2: int| 0 <= x2 < x ==> #[trigger] heights@[x2] == column_height(board@, x2),
                forall|x2: int| 0 <= x2 < x ==> 0 <= #[trigger] heights@[x2] <= 20,
                forall|x2: int| x < x2 < 10 ==> #[trigger] heights@[x2] == 0,
            ensures
                heights@[x as int] == column_height(board@, x as int),
                0 <= heights@[x as int] <= 20,
            decreases 20 - y,
        {
            if board[y * COLS + x].is_some() {
                assert(filled(board@, x as int, y as int));
                heights[x] = (ROWS - y) as i32;
                break;
            }
            y += 1;
        }
        x += 1;
    }
    heights
}

/// Number of empty cells that lie below the topmost block of their column.
pub fn count_holes(board: &Board) -> (holes: i32)
    ensures
        holes == holes_upto(board@, 10),
{
    let mut holes: i32 = 0;
    let mut x: usize = 0;
    while x < COLS
        invariant
            0 <= x <= 10,
            holes == holes_upto(board@, x as int),
        decreases 10 - x,
    {
        let mut covered = false;
        let ghost mut acc: int = 0;
        let mut y: usize = 0;
        proof {
            lemma_holes_upto_range(board@, x as int);
        }
        while y < ROWS
            invariant
                0 <= x < 10,
                0 <= y <= 20,
                0 <= holes_upto(board@, x as int) <= 20 * x,
                holes == holes_upto(board@, x as int) + acc,
                0 <= acc <= y,
                !covered ==> acc == 0 && top_filled(board@, x as int, 0) == top_filled(
                    board@,
                    x as int,
                    y as int,
                ),
                covered ==> top_filled(board@, x as int, 0) < y && 0 <= top_filled(
                    board@,
                    x as int,
                    0,
                ) && acc + empty_from(board@, x as int, y as int) == column_holes(board@, x as int),
            decreases 20 - y,
        {
            if board[y * COLS + x].is_some() {
                assert(filled(board@, x as int, y as int));
                covered = true;
            } else if covered {
                holes += 1;
                proof {
                    acc = acc + 1;
                }
            }
            y += 1;
        }
        x += 1;
    }
    holes
}

/// Sum over the columns of how deep each sits below the lower of its
/// neighbours (the walls count as height 20).
pub fn count_wells(heights: &[i32; 10]) -> (wells: i32)
    requires
        forall|x: int| 0 <= x < 10 ==> well_depth(heights@, x) <= i32::MAX,
        forall|n: int| 0 <= n <= 10 ==> wells_upto(heights@, n) <= i32::MAX,
    ensures
        wells == wells_upto(heights@, 10),
{
    let mut wells: i32 = 0;
    let mut x: usize = 0;
    while x < COLS
        invariant
            0 <= x <= 10,
            forall|x2: int| 0 <= x2 < 10 ==> well_depth(heights@, x2) <= i32::MAX,
            forall|n: int| 0 <= n <= 10 ==> wells_upto(heights@, n) <= i32::MAX,
            wells == wells_upto(heights@, x as int),
            wells >= 0,
        decreases 10 - x,
    {
        let left: i32 = if x == 0 {
            ROWS as i32
        } else {
            heights[x - 1]
        };
        let right: i32 = if x == COLS - 1 {
            ROWS as i32
        } else {
            heights[x + 1]
        };
        let rim: i32 = if left < right {
            left
        } else {
            right
        };
        assert(well_depth(heights@, x as int) <= i32::MAX);
        assert(wells_upto(heights@, x + 1) <= i32::MAX);
        if rim > heights[x] {
            wells += rim - heights[x];
        }
        x += 1;
    }
    wells
}

/// Well depths of heights in `0..=20` are at most 20 each.
pub proof fn lemma_wells_bounded(h: Seq<i32>, n: int)
    requires
        h.len() == 10,
        forall|x: int| 0 <= x < 10 ==> 0 <= #[trigger] h[x] <= 20,
        0 <= n <= 10,
    ensures
        0 <= wells_upto(h, n) <= 20 * n,
        forall|x: int| 0 <= x < 10 ==> 0 <= #[trigger] well_depth(h, x) <= 20,
    decreases n,
{
    if n > 0 {
        lemma_wells_bounded(h, n - 1);
    }
}

/// The integer measurements of a board that the placement search weighs.
#[derive(Clone, Copy, Debug, PartialEq, Eq)]
pub struct BoardFeatures {
    /// Sum of the column heights.
    pub aggregate_height: i32,
    /// Height of the tallest column.
    pub max_height: i32,
    /// Empty cells below the topmost block of their column.
    pub holes: i32,
    /// Sum of the height steps between neighbouring columns.
    pub bumpiness: i32,
    /// Sum of the well depths (see `count_wells`).
    pub wells: i32,
    /// Number of columns 16 or more rows high.
    pub danger: i32,
}

/// Measures `board`.
pub fn board_features(board: &Board) -> (f: BoardFeatures)
    ensures
        f.aggregate_height == sum_upto(heights_of(board@), 10),
        f.max_height == max_upto(heights_of(board@), 10),
        f.holes == holes_upto(board@, 10),
        f.bumpiness == bumps_upto(heights_of(board@), 9),
        f.wells == wells_upto(heights_of(board@), 10),
        f.danger == tall_upto(heights_of(board@), 10),
{
    let heights = column_heights(board);
    let ghost h = heights_of(board@);
    assert(heights@ =~= h);
    let mut aggregate: i32 = 0;
    let mut max_height: i32 = 0;
    let mut bumpiness: i32 = 0;
    let mut danger: i32 = 0;
    let mut x: usize = 0;
    while x < COLS
        invariant
            0 <= x <= 10,
            heights@ == h,
            forall|x2: int| 0 <= x2 < 10 ==> 0 <= #[trigger] h[x2] <= 20,
            aggregate == sum_upto(h, x as int),
            0 <= aggregate <= 20 * x,
            max_height == max_upto(h, x as int),
            0 <= max_height <= 20,
            danger == tall_upto(h, x as int),
            0 <= danger <= x,
            x >= 1 ==> bumpiness == bumps_upto(h, x - 1),
            x == 0 ==> bumpiness == 0,
            0 <= bumpiness <= 20 * x,
        decreases 10 - x,
    {
        let height = heights[x];
        aggregate += height;
        if height > max_height {
            max_height = height;
        }
        if height >= 16 {
            danger += 1;
        }
        if x >= 1 {
            let prev = heights[x - 1];
            if prev >= height {
                bumpiness += prev - height;
            } else {
                bumpiness += height - prev;
            }
        }
        x += 1;
    }
    proof {
        lemma_wells_bounded(h, 10);
        assert forall|n: int| 0 <= n <= 10 implies wells_upto(heights@, n) <= i32::MAX by {
            lemma_wells_bounded(h, n);
        }
    }
    let wells = count_wells(&heights);
    let holes = count_holes(board);
    BoardFeatures { aggregate_height: aggregate, max_height, holes, bumpiness, wells, danger }
}

/// The cells of column `x` from row `y` down to (not including) the first
/// block at or below `y` are empty.
pub proof fn lemma_above_top_empty(b: Seq<Option<Block>>, x: int, y: int, r: int)
    requires
        0 <= y <= r < top_filled(b, x, y),
        top_filled(b, x, y) <= 20,
    ensures
        !filled(b, x, r),
    decreases 20 - y,
{
    if y < 20 && !filled(b, x, y) && y < r {
        lemma_above_top_empty(b, x, y + 1, r);
    }
}

/// What a column height means: a column of height `h > 0` has a block in
/// row `20 - h` and none above it; a column of height 0 is empty.
pub proof fn lemma_column_height_meaning(b: Seq<Option<Block>>, x: int)
    ensures
        0 <= column_height(b, x) <= 20,
        column_height(b, x) > 0 ==> filled(b, x, 20 - column_height(b, x)),
        forall|r: int| 0 <= r < 20 - column_height(b, x) ==> !#[trigger] filled(b, x, r),
{
    lemma_top_filled_range(b, x, 0);
    assert forall|r: int| 0 <= r < 20 - column_height(b, x) implies !#[trigger] filled(b, x, r) by {
        lemma_above_top_empty(b, x, 0, r);
    }
}

} // verus!
