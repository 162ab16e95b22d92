//! The game: a board, a falling piece, a hold slot, a preview queue and the
//! counters, driven by player actions.
use vstd::prelude::*;

use crate::ai::{ai_step, hold_choice, AiAction, AiPlan};
use crate::board::{
    blocked, clear_lines_on_board, cleared_board, cleared_count, collides, collides_on_board, fall,
    landed, landing_row, lemma_fitting_piece_bounds, occupies, place_cells, Board,
};
use crate::accounting::lemma_settle_books;
use crate::laws::lemma_counters_never_decrease;
use crate::model::{first_cell_above, initial_view, kicked, line_points, shifted, turned, GameView};
use crate::pieces::{
    at_row, cell_x, cell_y, coords_fit, lemma_coords_fit, spawned, Block, Kind, Piece, COLS,
    PREVIEW,
};
use crate::rng::{kind_draw, lcg_steps, random_kind, Rng};

verus! {

/// A game of Tetris.
#[derive(Clone)]
pub struct Game {
    board: Board,
    rng: Rng,
    current: Piece,
    hold: Option<Kind>,
    can_hold: bool,
    next: [Kind; 5],
    score: u32,
    lines: u32,
    pieces: u32,
    paused: bool,
    game_over: bool,
}

impl View for Game {
    type V = GameView;

    closed spec fn view(&self) -> GameView {
        GameView {
            board: self.board@,
            rng: self.rng@,
            current: self.current,
            hold: self.hold,
            can_hold: self.can_hold,
            next: self.next@,
            score: self.score as int,
            lines: self.lines as int,
            pieces: self.pieces as int,
            paused: self.paused,
            game_over: self.game_over,
        }
    }
}

/// The counters of a game always fit their 32-bit fields.
pub proof fn lemma_view_counters_fit(g: Game)
    ensures
        g@.counters_fit(),
        g@.score >= 0,
        g@.lines >= 0,
        g@.pieces >= 0,
{
}

impl Game {
    /// A new game whose pieces are drawn from a generator seeded with `seed`.
    pub fn new(seed: u64) -> (g: Game)
        ensures
            g@ == initial_view(seed),
            g@.inv(),
    {
        let mut rng = Rng::new(seed);
        let ghost s0 = rng@;
        let current = Piece::spawn(random_kind(&mut rng));
        let mut next: [Kind; 5] = [Kind::I; 5];
        let mut i: usize = 0;
        proof {
            reveal_with_fuel(lcg_steps, 2);
        }
        while i < PREVIEW
            invariant
                0 <= i <= 5,
                rng@ == lcg_steps(s0, (i + 1) as nat),
                forall|j: int| 0 <= j < i ==> #[trigger] next@[j] == kind_draw(lcg_steps(s0, (j + 1) as nat)),
            decreases 5 - i,
        {
            next[i] = random_kind(&mut rng);
            i += 1;
        }
        let board: Board = [None; 200];
        proof {
            assert(board@ =~= initial_view(seed).board);
            crate::board::lemma_spawn_fits_empty(board@, current.kind);
            crate::accounting::lemma_empty_board(board@);
        }
        let g = Game {
            board,
            rng,
            current,
            hold: None,
            can_hold: true,
            next,
            score: 0,
            lines: 0,
            pieces: 0,
            paused: false,
            game_over: false,
        };
        proof {
            assert(g@.next =~= initial_view(seed).next);
        }
        g
    }

    /// Starts over with a new game from `seed`.
    pub fn reset(&mut self, seed: u64)
        ensures
            final(self)@ == initial_view(seed),
            final(self)@.inv(),
    {
        *self = Self::new(seed);
    }

    /// The locked blocks, row-major.
    pub fn board(&self) -> (b: &[Option<Block>; 200])
        ensures
            b@ == self@.board,
    {
        &self.board
    }

    /// The falling piece.
    pub fn current(&self) -> (p: Piece)
        ensures
            p == self@.current,
    {
        self.current
    }

    /// The held kind, if any.
    pub fn hold(&self) -> (h: Option<Kind>)
        ensures
            h == self@.hold,
    {
        self.hold
    }

    /// The upcoming kinds, soonest first.
    pub fn next(&self) -> (n: &[Kind; 5])
        ensures
            n@ == self@.next,
    {
        &self.next
    }

    /// Points scored so far.
    pub fn score(&self) -> (s: u32)
        ensures
            s == self@.score,
    {
        self.score
    }

    /// Rows cleared so far.
    pub fn lines(&self) -> (l: u32)
        ensures
            l == self@.lines,
    {
        self.lines
    }

    /// Pieces locked so far.
    pub fn pieces(&self) -> (p: u32)
        ensures
            p == self@.pieces,
    {
        self.pieces
    }

    /// The level: `lines / 10 + 1`.
    pub fn level(&self) -> (l: u32)
        ensures
            l == self@.level(),
    {
        self.lines / 10 + 1
    }

    /// Whether the game is paused.
    pub fn is_paused(&self) -> (b: bool)
        ensures
            b == self@.paused,
    {
        self.paused
    }

    /// Whether the game has ended.
    pub fn is_game_over(&self) -> (b: bool)
        ensures
            b == self@.game_over,
    {
        self.game_over
    }

    /// Whether a hold is allowed before the next piece locks.
    pub fn can_hold(&self) -> (b: bool)
        ensures
            b == self@.can_hold,
    {
        self.can_hold
    }

    /// Pauses or resumes, unless the game is over.
    pub fn toggle_pause(&mut self)
        requires
            old(self)@.inv(),
        ensures
            final(self)@ == old(self)@.after_toggle_pause(),
            final(self)@.inv(),
    {
        if !self.game_over {
            self.paused = !self.paused;
        }
    }

    /// The cell at index `y * COLS + x` of the board.
    pub fn block_at(&self, x: usize, y: usize) -> (b: Option<Block>)
        requires
            y * 10 + x < 200,
        ensures
            b == self@.board[y * 10 + x],
    {
        self.board[y * COLS + x]
    }

    /// Whether the falling piece covers cell (`x`, `y`) (each coordinate
    /// converted with `as i32`).
    pub fn active_at(&self, x: usize, y: usize) -> (r: bool)
        requires
            self@.inv(),
        ensures
            r == occupies(self@.current, (#[verifier::truncate] (x as i32)) as int, (#[verifier::truncate] (y as i32)) as int),
    {
        proof {
            lemma_coords_fit(self.current);
        }
        let cells = self.current.cells();
        let px = #[verifier::truncate] (x as i32);
        let py = #[verifier::truncate] (y as i32);
        let mut i: usize = 0;
        while i < 4
            invariant
                0 <= i <= 4,
                px == (#[verifier::truncate] (x as i32)),
                py == (#[verifier::truncate] (y as i32)),
                forall|j: int|
                    0 <= j < 4 ==> #[trigger] cells@[j].0 == cell_x(self.current, j) && cells@[j].1
                        == cell_y(self.current, j),
                forall|j: int|
                    0 <= j < i ==> !(cell_x(self.current, j) == px && cell_y(self.current, j) == py),
            decreases 4 - i,
        {
            assert(cells@[i as int].0 == cell_x(self.current, i as int));
            assert(cells@[i as int].1 == cell_y(self.current, i as int));
            if cells[i].0 == px && cells[i].1 == py {
                proof {
                    if i == 0 {
                    } else if i == 1 {
                    } else if i == 2 {
                    } else {
                    }
                }
                return true;
            }
            i += 1;
        }
        false
    }

    /// Where the falling piece would come to rest if dropped now.
    pub fn ghost_piece(&self) -> (g: Piece)
        requires
            self@.inv(),
        ensures
            g == landed(self@.board, self@.current),
    {
        proof {
            lemma_coords_fit(self.current);
        }
        fall(&self.board, self.current)
    }

    /// The next action toward `plan`; see `ai_step`.
    pub fn ai_action(&self, plan: Option<AiPlan>) -> (a: Option<AiAction>)
        ensures
            a == ai_step(self@, plan),
    {
        if self.paused || self.game_over {
            return None;
        }
        let plan = match plan {
            Some(p) => p,
            None => return None,
        };
        if plan.use_hold && self.can_hold {
            return Some(AiAction::Hold);
        }
        let current_rotation = self.current.rotation % 4;
        let target_rotation = plan.target_rotation % 4;
        if current_rotation != target_rotation {
            let clockwise = (target_rotation + 4 - current_rotation) % 4;
            let counter_clockwise = (current_rotation + 4 - target_rotation) % 4;
            return Some(
                if clockwise <= counter_clockwise {
                    AiAction::RotateCw
                } else {
                    AiAction::RotateCcw
                },
            );
        }
        if self.current.x < plan.target_x {
            Some(AiAction::MoveRight)
        } else if self.current.x > plan.target_x {
            Some(AiAction::MoveLeft)
        } else {
            Some(AiAction::HardDrop)
        }
    }

    /// The kinds a hold would bring to the search; see `hold_choice`.
    pub fn hold_preview(&self) -> (c: Option<(Kind, Kind)>)
        ensures
            c == hold_choice(self@),
    {
        if !self.can_hold {
            return None;
        }
        match self.hold {
            Some(held) => Some((held, self.next[0])),
            None => Some((self.next[0], self.next[1])),
        }
    }

    fn collides(&self, piece: Piece) -> (r: bool)
        requires
            coords_fit(piece),
        ensures
            r == collides(self@.board, piece),
    {
        collides_on_board(&self.board, piece)
    }

    fn try_move(&mut self, dx: i32, dy: i32) -> (moved: bool)
        requires
            old(self)@.inv(),
            -1 <= dx <= 1,
            0 <= dy <= 1,
        ensures
            moved == old(self)@.can_move(dx as int, dy as int),
            final(self)@ == old(self)@.after_move(dx as int, dy as int),
            final(self)@.inv(),
    {
        if self.paused || self.game_over {
            return false;
        }
        let moved = Piece { x: self.current.x + dx, y: self.current.y + dy, ..self.current };
        proof {
            lemma_coords_fit(moved);
        }
        if self.collides(moved) {
            false
        } else {
            self.current = moved;
            proof {
                lemma_fitting_piece_bounds(self@.board, moved);
            }
            true
        }
    }

    /// Moves the piece one column left if it fits there.
    pub fn move_left(&mut self)
        requires
            old(self)@.inv(),
        ensures
            final(self)@ == old(self)@.after_move(-1, 0),
            final(self)@.inv(),
    {
        self.try_move(-1, 0);
    }

    /// Moves the piece one column right if it fits there.
    pub fn move_right(&mut self)
        requires
            old(self)@.inv(),
        ensures
            final(self)@ == old(self)@.after_move(1, 0),
            final(self)@.inv(),
    {
        self.try_move(1, 0);
    }
    /// Tries to move the piece one row down: a point if it moves, otherwise
    /// the piece locks.
    pub fn soft_drop(&mut self)
        requires
            old(self)@.inv(),
            old(self)@.after_soft_drop().counters_fit(),
        ensures
            final(self)@ == old(self)@.after_soft_drop(),
            final(self)@.inv(),
            old(self)@.lines <= final(self)@.lines <= old(self)@.lines + 4,
            old(self)@.pieces <= final(self)@.pieces <= old(self)@.pieces + 1,
    {
        proof {
            lemma_counters_never_decrease(self@, 0, 0, 0);
        }
        if self.paused || self.game_over {
            return;
        }
        if self.try_move(0, 1) {
            self.score += 1;
        } else {
            self.lock_current();
        }
    }

    /// Drops the piece as far as it falls, two points per row, and locks it.
    pub fn hard_drop(&mut self)
        requires
            old(self)@.inv(),
            old(self)@.after_hard_drop().counters_fit(),
        ensures
            final(self)@ == old(self)@.after_hard_drop(),
            final(self)@.inv(),
            old(self)@.lines <= final(self)@.lines <= old(self)@.lines + 4,
            old(self)@.pieces <= final(self)@.pieces <= old(self)@.pieces + 1,
    {
        proof {
            lemma_counters_never_decrease(self@, 0, 0, 0);
        }
        if self.paused || self.game_over {
            return;
        }
        let ghost g0 = self@;
        let ghost p0 = self.current;
        let mut distance: u32 = 0;
        proof {
            assert(shifted(p0, 0, 0) == p0);
        }
        loop
            invariant
                g0.inv(),
                g0.active(),
                g0 == old(self)@,
                g0.after_hard_drop().counters_fit(),
                self@.inv(),
                0 <= distance <= 20,
                -1 <= p0.y <= 19,
                self.current.y == p0.y + distance,
                self@ == (GameView { current: shifted(p0, 0, distance as int), ..g0 }),
                landing_row(g0.board, self.current) == landing_row(g0.board, p0),
            ensures
                self@ == (GameView { current: landed(g0.board, p0), ..g0 }),
                distance == landed(g0.board, p0).y - p0.y,
            decreases 20 - self.current.y,
        {
            let ghost before = self.current;
            if !self.try_move(0, 1) {
                proof {
                    assert(shifted(before, 0, 1) == at_row(before, before.y + 1));
                    assert(at_row(before, before.y as int) == before);
                }
                break;
            }
            proof {
                assert(shifted(before, 0, 1) == at_row(before, before.y + 1));
                assert(shifted(p0, 0, distance + 1) == shifted(before, 0, 1));
                lemma_fitting_piece_bounds(self@.board, self.current);
            }
            distance += 1;
        }
        self.score += distance * 2;
        self.lock_current();
    }

    /// Turns the piece a quarter turn clockwise, with wall kicks.
    pub fn rotate_cw(&mut self)
        requires
            old(self)@.inv(),
        ensures
            final(self)@ == old(self)@.after_rotate(1),
            final(self)@.inv(),
    {
        self.rotate(1);
    }

    /// Turns the piece a quarter turn counter-clockwise, with wall kicks.
    pub fn rotate_ccw(&mut self)
        requires
            old(self)@.inv(),
        ensures
            final(self)@ == old(self)@.after_rotate(3),
            final(self)@.inv(),
    {
        self.rotate(3);
    }

    /// Swaps the falling piece with the held kind (or, with nothing held,
    /// sets it aside and takes the next piece). Once per locked piece.
    pub fn hold_piece(&mut self)
        requires
            old(self)@.inv(),
        ensures
            final(self)@ == old(self)@.after_hold(),
            final(self)@.inv(),
    {
        if self.paused || self.game_over || !self.can_hold {
            return;
        }
        let current_kind = self.current.kind;
        match self.hold {
            Some(held) => {
                self.current = Piece::spawn(held);
                self.hold = Some(current_kind);
                proof {
                    lemma_coords_fit(self.current);
                }
                if self.collides(self.current) {
                    self.game_over = true;
                }
            },
            None => {
                self.hold = Some(current_kind);
                self.spawn_next();
            },
        }
        self.can_hold = false;
    }

    /// One tick of gravity: the piece moves a row down, or locks if it rests.
    pub fn gravity_step(&mut self)
        requires
            old(self)@.inv(),
            old(self)@.after_gravity().counters_fit(),
        ensures
            final(self)@ == old(self)@.after_gravity(),
            final(self)@.inv(),
            old(self)@.lines <= final(self)@.lines <= old(self)@.lines + 4,
            old(self)@.pieces <= final(self)@.pieces <= old(self)@.pieces + 1,
    {
        proof {
            lemma_counters_never_decrease(self@, 0, 0, 0);
        }
        if self.paused || self.game_over {
            return;
        }
        if !self.try_move(0, 1) {
            self.lock_current();
        }
    }

    fn rotate(&mut self, amount: usize)
        requires
            old(self)@.inv(),
            amount < 4,
        ensures
            final(self)@ == old(self)@.after_rotate(amount as int),
            final(self)@.inv(),
    {
        if self.paused || self.game_over {
            return;
        }
        let rotated = Piece { rotation: (self.current.rotation + amount) % 4, ..self.current };
        let ghost b = self@.board;
        let kicks: [i32; 5] = [0, -1, 1, -2, 2];
        let mut i: usize = 0;
        while i < 5
            invariant
                0 <= i <= 5,
                kicks@ == seq![0i32, -1i32, 1i32, -2i32, 2i32],
                rotated == turned(old(self)@.current, amount as int),
                -1 <= rotated.x <= 9,
                -1 <= rotated.y <= 19,
                b == old(self)@.board,
                old(self)@.active(),
                old(self)@.inv(),
                self@ == old(self)@,
                forall|j: int| 0 <= j < i ==> collides(b, #[trigger] shifted(rotated, kicks@[j] as int, 0)),
            decreases 5 - i,
        {
            let candidate = Piece { x: rotated.x + kicks[i], ..rotated };
            proof {
                lemma_coords_fit(candidate);
                assert(candidate == shifted(rotated, kicks@[i as int] as int, 0));
            }
            if !self.collides(candidate) {
                self.current = candidate;
                proof {
                    lemma_fitting_piece_bounds(b, candidate);
                    if i > 0 {
                        assert(collides(b, shifted(rotated, kicks@[0] as int, 0)));
                    }
                    if i > 1 {
                        assert(collides(b, shifted(rotated, kicks@[1] as int, 0)));
                    }
                    if i > 2 {
                        assert(collides(b, shifted(rotated, kicks@[2] as int, 0)));
                    }
                    if i > 3 {
                        assert(collides(b, shifted(rotated, kicks@[3] as int, 0)));
                    }
                    assert(kicked(b, rotated) == Some(candidate));
                }
                return;
            }
            i += 1;
        }
        proof {
            assert(collides(b, shifted(rotated, kicks@[0] as int, 0)));
            assert(collides(b, shifted(rotated, kicks@[1] as int, 0)));
            assert(collides(b, shifted(rotated, kicks@[2] as int, 0)));
            assert(collides(b, shifted(rotated, kicks@[3] as int, 0)));
            assert(collides(b, shifted(rotated, kicks@[4] as int, 0)));
        }
    }

    /// Writes the piece into the board; see `GameView::after_lock`.
    fn lock_current(&mut self)
        requires
            old(self)@.inv(),
            !old(self)@.game_over,
            !old(self)@.paused,
            old(self)@.after_lock().counters_fit(),
        ensures
            final(self)@ == old(self)@.after_lock(),
            final(self)@.inv(),
    {
        let ghost g0 = self@;
        let p = self.current;
        proof {
            lemma_coords_fit(p);
        }
        let cells = p.cells();
        let mut i: usize = 0;
        while i < 4
            invariant
                0 <= i <= 4,
                g0 == old(self)@,
                g0.inv(),
                !g0.game_over,
                !g0.paused,
                p == g0.current,
                forall|j: int|
                    0 <= j < 4 ==> #[trigger] cells@[j].0 == cell_x(p, j) && cells@[j].1 == cell_y(p, j),
                forall|j: int| 0 <= j < i ==> cell_y(p, j) >= 0,
                self@ == (GameView { board: place_cells(g0.board, p, i as int), ..g0 }),
            decreases 4 - i,
        {
            let (x, y) = cells[i];
            assert(cells@[i as int].0 == cell_x(p, i as int));
            assert(!blocked(g0.board, cell_x(p, i as int), cell_y(p, i as int)));
            if y < 0 {
                self.game_over = true;
                return;
            }
            self.board[y as usize * COLS + x as usize] = Some(Block { kind: p.kind });
            i += 1;
        }
        self.pieces += 1;
        self.can_hold = true;
        let cleared = self.clear_lines();
        if cleared > 0 {
            self.lines += cleared;
            self.score += line_score(cleared) * self.level();
        }
        proof {
            assert(first_cell_above(p) == 4);
            assert(self@ == g0.settled());
            lemma_settle_books(g0);
        }
        self.spawn_next();
    }

    /// Spawns the next queued kind; see `GameView::after_spawn_next`.
    fn spawn_next(&mut self)
        requires
            old(self)@.board.len() == 200,
            old(self)@.books_balanced(),
            !old(self)@.paused,
            0 <= old(self)@.score,
            0 <= old(self)@.lines,
            0 <= old(self)@.pieces,
        ensures
            final(self)@ == old(self)@.after_spawn_next(),
            final(self)@.inv(),
    {
        self.current = Piece::spawn(self.next[0]);
        let mut i: usize = 0;
        let ghost queue = self.next@;
        while i < PREVIEW - 1
            invariant
                0 <= i <= 4,
                queue == old(self)@.next,
                self.next@.len() == 5,
                forall|j: int| 0 <= j < i ==> #[trigger] self.next@[j] == queue[j + 1],
                forall|j: int| i <= j < 5 ==> #[trigger] self.next@[j] == queue[j],
                self@ == (GameView { current: spawned(queue[0]), next: self.next@, ..old(self)@ }),
            decreases 4 - i,
        {
            self.next[i] = self.next[i + 1];
            i += 1;
        }
        self.next[PREVIEW - 1] = random_kind(&mut self.rng);
        proof {
            assert(self.next@ =~= queue.drop_first().push(kind_draw(old(self)@.rng)));
            lemma_coords_fit(self.current);
        }
        if self.collides(self.current) {
            self.game_over = true;
        }
    }

    fn clear_lines(&mut self) -> (cleared: u32)
        ensures
            final(self)@ == (GameView { board: cleared_board(old(self)@.board), ..old(self)@ }),
            cleared == cleared_count(old(self)@.board),
    {
        clear_lines_on_board(&mut self.board)
    }
}

/// Points for clearing `cleared` rows at once: 100, 300, 500 or 800 for one
/// to four rows, nothing otherwise.
pub fn line_score(cleared: u32) -> (points: u32)
    ensures
        points == line_points(cleared as int),
{
    match cleared {
        1 => 100,
        2 => 300,
        3 => 500,
        4 => 800,
        _ => 0,
    }
}

} // verus!
