//! Tetromino kinds, their rotation tables and pieces on the board.
use vstd::prelude::*;

verus! {

/// Width of the board in cells.
pub const COLS: usize = 10;

/// Height of the board in cells.
pub const ROWS: usize = 20;

/// Number of upcoming kinds shown in the preview queue.
pub const PREVIEW: usize = 5;

/// The seven tetromino kinds.
#[derive(Clone, Copy, Debug, PartialEq, Eq, Structural)]
pub enum Kind {
    I,
    O,
    T,
    S,
    Z,
    J,
    L,
}

impl Kind {
    /// Every kind, in the order the random generator indexes them.
    pub const ALL: [Kind; 7] = [Kind::I, Kind::O, Kind::T, Kind::S, Kind::Z, Kind::J, Kind::L];
}

/// A locked cell of the board, remembering which kind of piece left it.
#[derive(Clone, Copy, Debug, PartialEq, Eq, Structural)]
pub struct Block {
    pub kind: Kind,
}

/// A piece: a kind, a rotation and the board position of its pivot.
#[derive(Clone, Copy, Debug, PartialEq, Eq, Structural)]
pub struct Piece {
    pub kind: Kind,
    pub rotation: usize,
    pub x: i32,
    pub y: i32,
}

/// The kind that `Kind::ALL` holds at index `i` (for `0 <= i < 7`).
pub open spec fn kind_at(i: int) -> Kind {
    if i == 0 {
        Kind::I
    } else if i == 1 {
        Kind::O
    } else if i == 2 {
        Kind::T
    } else if i == 3 {
        Kind::S
    } else if i == 4 {
        Kind::Z
    } else if i == 5 {
        Kind::J
    } else {
        Kind::L
    }
}

/// The four cell offsets, relative to the pivot, of `kind` turned `rotation`
/// quarter turns clockwise. I, S and Z have two distinct orientations, O one,
/// and T, J, L four.
pub open spec fn shape_table(kind: Kind, rotation: int) -> Seq<(int, int)> {
    match kind {
        Kind::I => if rotation % 2 == 0 {
            seq![(-1int, 0int), (0, 0), (1, 0), (2, 0)]
        } else {
            seq![(0int, -1int), (0, 0), (0, 1), (0, 2)]
        },
        Kind::O => seq![(0int, 0int), (1, 0), (0, 1), (1, 1)],
        Kind::T => if rotation % 4 == 0 {
            seq![(-1int, 0int), (0, 0), (1, 0), (0, 1)]
        } else if rotation % 4 == 1 {
            seq![(0int, -1int), (0, 0), (0, 1), (1, 0)]
        } else if rotation % 4 == 2 {
            seq![(-1int, 0int), (0, 0), (1, 0), (0, -1)]
        } else {
            seq![(0int, -1int), (0, 0), (0, 1), (-1, 0)]
        },
        Kind::S => if rotation % 2 == 0 {
            seq![(0int, 0int), (1, 0), (-1, 1), (0, 1)]
        } else {
            seq![(0int, -1int), (0, 0), (1, 0), (1, 1)]
        },
        Kind::Z => if rotation % 2 == 0 {
            seq![(-1int, 0int), (0, 0), (0, 1), (1, 1)]
        } else {
            seq![(1int, -1int), (0, 0), (1, 0), (0, 1)]
        },
        Kind::J => if rotation % 4 == 0 {
            seq![(-1int, 0int), (0, 0), (1, 0), (-1, 1)]
        } else if rotation % 4 == 1 {
            seq![(0int, -1int), (0, 0), (0, 1), (1, 1)]
        } else if rotation % 4 == 2 {
            seq![(-1int, 0int), (0, 0), (1, 0), (1, -1)]
        } else {
            seq![(0int, -1int), (0, 0), (0, 1), (-1, -1)]
        },
        Kind::L => if rotation % 4 == 0 {
            seq![(-1int, 0int), (0, 0), (1, 0), (1, 1)]
        } else if rotation % 4 == 1 {
            seq![(0int, -1int), (0, 0), (0, 1), (1, -1)]
        } else if rotation % 4 == 2 {
            seq![(-1int, 0int), (0, 0), (1, 0), (-1, -1)]
        } else {
            seq![(0int, -1int), (0, 0), (0, 1), (-1, 1)]
        },
    }
}

/// Every offset of every shape lies in `-1..=2` on both axes.
pub proof fn lemma_shape_offsets_small(kind: Kind, rotation: int, i: int)
    requires
        0 <= i < 4,
    ensures
        shape_table(kind, rotation).len() == 4,
        -1 <= shape_table(kind, rotation)[i].0 <= 2,
        -1 <= shape_table(kind, rotation)[i].1 <= 2,
{
}

/// Integer view of a sequence of `i32` offset pairs.
pub open spec fn offsets_view(cells: Seq<(i32, i32)>) -> Seq<(int, int)> {
    cells.map_values(|c: (i32, i32)| (c.0 as int, c.1 as int))
}

/// The x coordinate of cell `i` of piece `p`.
pub open spec fn cell_x(p: Piece, i: int) -> int {
    p.x + shape_table(p.kind, p.rotation as int)[i].0
}

/// The y coordinate of cell `i` of piece `p`.
pub open spec fn cell_y(p: Piece, i: int) -> int {
    p.y + shape_table(p.kind, p.rotation as int)[i].1
}

/// Cell `i` of `p` has coordinates that an `i32` can hold.
pub open spec fn cell_fits(p: Piece, i: int) -> bool {
    &&& i32::MIN <= cell_x(p, i) <= i32::MAX
    &&& i32::MIN <= cell_y(p, i) <= i32::MAX
}

/// All four cells of `p` can be computed in `i32` without overflow.
pub open spec fn coords_fit(p: Piece) -> bool {
    &&& cell_fits(p, 0)
    &&& cell_fits(p, 1)
    &&& cell_fits(p, 2)
    &&& cell_fits(p, 3)
}

/// A pivot that lies at least two steps inside the `i32` range on both axes
/// leaves every cell computable.
pub proof fn lemma_coords_fit(p: Piece)
    requires
        i32::MIN + 1 <= p.x <= i32::MAX - 2,
        i32::MIN + 1 <= p.y <= i32::MAX - 2,
    ensures
        coords_fit(p),
{
    lemma_shape_offsets_small(p.kind, p.rotation as int, 0);
    lemma_shape_offsets_small(p.kind, p.rotation as int, 1);
    lemma_shape_offsets_small(p.kind, p.rotation as int, 2);
    lemma_shape_offsets_small(p.kind, p.rotation as int, 3);
}

/// The piece `p` moved to row `y`.
pub open spec fn at_row(p: Piece, y: int) -> Piece {
    Piece { y: y as i32, ..p }
}

/// The freshly spawned piece of `kind`: unrotated, pivot at (4, -1).
pub open spec fn spawned(kind: Kind) -> Piece {
    Piece { kind, rotation: 0, x: 4, y: -1i32 }
}

/// The offsets of `kind` in orientation `rotation`; the orientation is taken
/// modulo the number of distinct orientations of the kind.
pub fn shape_cells(kind: Kind, rotation: usize) -> (cells: [(i32, i32); 4])
    ensures
        offsets_view(cells@) == shape_table(kind, rotation as int),
{
    let cells: [(i32, i32); 4] = match kind {
        Kind::I => if rotation % 2 == 0 {
            [(-1, 0), (0, 0), (1, 0), (2, 0)]
        } else {
            [(0, -1), (0, 0), (0, 1), (0, 2)]
        },
        Kind::O => [(0, 0), (1, 0), (0, 1), (1, 1)],
        Kind::T => if rotation % 4 == 0 {
            [(-1, 0), (0, 0), (1, 0), (0, 1)]
        } else if rotation % 4 == 1 {
            [(0, -1), (0, 0), (0, 1), (1, 0)]
        } else if rotation % 4 == 2 {
            [(-1, 0), (0, 0), (1, 0), (0, -1)]
        } else {
            [(0, -1), (0, 0), (0, 1), (-1, 0)]
        },
        Kind::S => if rotation % 2 == 0 {
            [(0, 0), (1, 0), (-1, 1), (0, 1)]
        } else {
            [(0, -1), (0, 0), (1, 0), (1, 1)]
        },
        Kind::Z => if rotation % 2 == 0 {
            [(-1, 0), (0, 0), (0, 1), (1, 1)]
        } else {
            [(1, -1), (0, 0), (1, 0), (0, 1)]
        },
        Kind::J => if rotation % 4 == 0 {
            [(-1, 0), (0, 0), (1, 0), (-1, 1)]
        } else if rotation % 4 == 1 {
            [(0, -1), (0, 0), (0, 1), (1, 1)]
        } else if rotation % 4 == 2 {
            [(-1, 0), (0, 0), (1, 0), (1, -1)]
        } else {
            [(0, -1), (0, 0), (0, 1), (-1, -1)]
        },
        Kind::L => if rotation % 4 == 0 {
            [(-1, 0), (0, 0), (1, 0), (1, 1)]
        } else if rotation % 4 == 1 {
            [(0, -1), (0, 0), (0, 1), (1, -1)]
        } else if rotation % 4 == 2 {
            [(-1, 0), (0, 0), (1, 0), (-1, -1)]
        } else {
            [(0, -1), (0, 0), (0, 1), (-1, 1)]
        },
    };
    assert(offsets_view(cells@) =~= shape_table(kind, rotation as int));
    cells
}

impl Piece {
    /// A new piece of `kind` at the spawn point, unrotated.
    pub fn spawn(kind: Kind) -> (p: Piece)
        ensures
            p == spawned(kind),
    {
        Piece { kind, rotation: 0, x: 4, y: -1 }
    }

    /// The four board cells the piece covers, in the order of its shape table.
    pub fn cells(self) -> (cells: [(i32, i32); 4])
        requires
            coords_fit(self),
        ensures
            forall|i: int|
                0 <= i < 4 ==> #[trigger] cells@[i].0 == cell_x(self, i) && cells@[i].1 == cell_y(
                    self,
                    i,
                ),
    {
        let offsets = shape_cells(self.kind, self.rotation);
        proof {
            lemma_shape_offsets_small(self.kind, self.rotation as int, 0);
            lemma_shape_offsets_small(self.kind, self.rotation as int, 1);
            lemma_shape_offsets_small(self.kind, self.rotation as int, 2);
            lemma_shape_offsets_small(self.kind, self.rotation as int, 3);
        }
        [
            (self.x + offsets[0].0, self.y + offsets[0].1),
            (self.x + offsets[1].0, self.y + offsets[1].1),
            (self.x + offsets[2].0, self.y + offsets[2].1),
            (self.x + offsets[3].0, self.y + offsets[3].1),
        ]
    }
}

} // verus!
