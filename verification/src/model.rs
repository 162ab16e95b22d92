//! The mathematical model of a game: its state as plain values and what each
//! player action does to it.
use vstd::prelude::*;

use crate::accounting::{block_count, no_full_row};
use crate::board::{cleared_board, cleared_count, collides, landed, place_cells};
use crate::pieces::{cell_y, spawned, Block, Kind, Piece};
use crate::rng::{kind_draw, lcg_step, lcg_steps};

verus! {

/// The state of a game as plain values.
pub struct GameView {
    /// Locked blocks, row-major, 200 cells.
    pub board: Seq<Option<Block>>,
    /// State of the piece generator.
    pub rng: u64,
    /// The falling piece.
    pub current: Piece,
    /// The kind put aside by a hold, if any.
    pub hold: Option<Kind>,
    /// Whether a hold is allowed before the next piece locks.
    pub can_hold: bool,
    /// The five upcoming kinds, soonest first.
    pub next: Seq<Kind>,
    pub score: int,
    pub lines: int,
    pub pieces: int,
    pub paused: bool,
    pub game_over: bool,
}

/// Points for clearing `cleared` rows with one piece, before the level factor.
pub open spec fn line_points(cleared: int) -> int {
    if cleared == 1 {
        100
    } else if cleared == 2 {
        300
    } else if cleared == 3 {
        500
    } else if cleared == 4 {
        800
    } else {
        0
    }
}

/// `p` shifted by (`dx`, `dy`).
pub open spec fn shifted(p: Piece, dx: int, dy: int) -> Piece {
    Piece { x: (p.x + dx) as i32, y: (p.y + dy) as i32, ..p }
}

/// `p` turned `amount` quarter turns clockwise (rotation kept in `0..4`).
pub open spec fn turned(p: Piece, amount: int) -> Piece {
    Piece { rotation: ((p.rotation + amount) % 4) as usize, ..p }
}

/// Where a rotation lands: the first of the horizontal kicks 0, -1, +1, -2,
/// +2 at which the turned piece `r` fits, if any.
pub open spec fn kicked(b: Seq<Option<Block>>, r: Piece) -> Option<Piece> {
    if !collides(b, shifted(r, 0, 0)) {
        Some(shifted(r, 0, 0))
    } else if !collides(b, shifted(r, -1, 0)) {
        Some(shifted(r, -1, 0))
    } else if !collides(b, shifted(r, 1, 0)) {
        Some(shifted(r, 1, 0))
    } else if !collides(b, shifted(r, -2, 0)) {
        Some(shifted(r, -2, 0))
    } else if !collides(b, shifted(r, 2, 0)) {
        Some(shifted(r, 2, 0))
    } else {
        None
    }
}

/// Index of the first cell of `p` above the top of the board, or 4 if none is.
pub open spec fn first_cell_above(p: Piece) -> int {
    if cell_y(p, 0) < 0 {
        0
    } else if cell_y(p, 1) < 0 {
        1
    } else if cell_y(p, 2) < 0 {
        2
    } else if cell_y(p, 3) < 0 {
        3
    } else {
        4
    }
}

impl GameView {
    /// What every reachable state satisfies: the shapes of the board and the
    /// queue, a normalised rotation, a piece near the board, counters that
    /// are not negative, and the bookkeeping of `books_balanced`; while the
    /// game runs, the falling piece overlaps nothing.
    pub open spec fn inv(self) -> bool {
        &&& self.board.len() == 200
        &&& self.next.len() == 5
        &&& self.current.rotation < 4
        &&& -1 <= self.current.x <= 9
        &&& -1 <= self.current.y <= 19
        &&& 0 <= self.score
        &&& 0 <= self.lines
        &&& 0 <= self.pieces
        &&& !self.game_over ==> !collides(self.board, self.current)
        &&& self.books_balanced()
    }

    /// A game is never both paused and over, and while it runs no row of its
    /// board is full and the board holds four blocks per locked piece less
    /// ten per cleared row.
    pub open spec fn books_balanced(self) -> bool {
        &&& !(self.paused && self.game_over)
        &&& !self.game_over ==> no_full_row(self.board)
        &&& !self.game_over ==> block_count(self.board) == 4 * self.pieces - 10 * self.lines
    }

    /// The counters still fit in 32 bits.
    pub open spec fn counters_fit(self) -> bool {
        &&& self.score <= u32::MAX
        &&& self.lines <= u32::MAX
        &&& self.pieces <= u32::MAX
    }

    /// The game accepts piece actions: it is neither paused nor over.
    pub open spec fn active(self) -> bool {
        !self.paused && !self.game_over
    }

    /// The level: one more than the number of completed tens of lines.
    pub open spec fn level(self) -> int {
        self.lines / 10 + 1
    }

    /// A move by (`dx`, `dy`) is allowed: the game is active and the moved
    /// piece overlaps nothing.
    pub open spec fn can_move(self, dx: int, dy: int) -> bool {
        self.active() && !collides(self.board, shifted(self.current, dx, dy))
    }

    /// The state after trying to move the piece by (`dx`, `dy`).
    pub open spec fn after_move(self, dx: int, dy: int) -> GameView {
        if self.can_move(dx, dy) {
            GameView { current: shifted(self.current, dx, dy), ..self }
        } else {
            self
        }
    }

    /// The next queued kind becomes the falling piece at the spawn point, the
    /// queue moves up and a fresh kind joins its end; the game ends if the new
    /// piece does not fit.
    pub open spec fn after_spawn_next(self) -> GameView {
        let p = spawned(self.next[0]);
        GameView {
            current: p,
            next: self.next.drop_first().push(kind_draw(self.rng)),
            rng: lcg_step(self.rng),
            game_over: self.game_over || collides(self.board, p),
            ..self
        }
    }

    /// Locking the falling piece. If a cell sticks out above the top, the
    /// cells before it are written and the game ends. Otherwise the piece
    /// joins the board, full rows are cleared and scored (100, 300, 500, 800
    /// times the new level), holding is allowed again and the next piece spawns.
    pub open spec fn after_lock(self) -> GameView {
        let p = self.current;
        let k = first_cell_above(p);
        if k < 4 {
            GameView { board: place_cells(self.board, p, k), game_over: true, ..self }
        } else {
            self.settled().after_spawn_next()
        }
    }

    /// The state right after the falling piece, lying wholly on the board, is
    /// written into it: full rows cleared and scored (100, 300, 500, 800 times
    /// the new level), one more piece, holding allowed again.
    pub open spec fn settled(self) -> GameView {
        let placed = place_cells(self.board, self.current, 4);
        let cleared = cleared_count(placed) as int;
        let lines = self.lines + cleared;
        GameView {
            board: cleared_board(placed),
            pieces: self.pieces + 1,
            can_hold: true,
            lines,
            score: self.score + line_points(cleared) * (lines / 10 + 1),
            ..self
        }
    }

    /// Soft drop: one row down for a point, or lock if the piece rests.
    pub open spec fn after_soft_drop(self) -> GameView {
        if !self.active() {
            self
        } else if self.can_move(0, 1) {
            GameView { score: self.score + 1, ..self.after_move(0, 1) }
        } else {
            self.after_lock()
        }
    }

    /// Hard drop: fall to rest, two points per row fallen, then lock.
    pub open spec fn after_hard_drop(self) -> GameView {
        if !self.active() {
            self
        } else {
            let l = landed(self.board, self.current);
            GameView {
                current: l,
                score: self.score + 2 * (l.y - self.current.y),
                ..self
            }.after_lock()
        }
    }

    /// Gravity: one row down, or lock if the piece rests.
    pub open spec fn after_gravity(self) -> GameView {
        if !self.active() {
            self
        } else if self.can_move(0, 1) {
            self.after_move(0, 1)
        } else {
            self.after_lock()
        }
    }

    /// Turning by `amount` quarter turns with wall kicks; nothing happens when
    /// no kick fits.
    pub open spec fn after_rotate(self, amount: int) -> GameView {
        if !self.active() {
            self
        } else {
            match kicked(self.board, turned(self.current, amount)) {
                Some(p) => GameView { current: p, ..self },
                None => self,
            }
        }
    }

    /// Hold: swap the falling kind with the held one (or, with nothing held,
    /// put it aside and take the next piece). Allowed once per locked piece.
    pub open spec fn after_hold(self) -> GameView {
        if !self.active() || !self.can_hold {
            self
        } else {
            let kind = self.current.kind;
            match self.hold {
                Some(held) => {
                    let p = spawned(held);
                    GameView {
                        current: p,
                        hold: Some(kind),
                        can_hold: false,
                        game_over: self.game_over || collides(self.board, p),
                        ..self
                    }
                },
                None => GameView {
                    can_hold: false,
                    ..GameView { hold: Some(kind), ..self }.after_spawn_next()
                },
            }
        }
    }

    /// Pausing toggles unless the game is over.
    pub open spec fn after_toggle_pause(self) -> GameView {
        if self.game_over {
            self
        } else {
            GameView { paused: !self.paused, ..self }
        }
    }
}

/// A new game from `seed`: an empty board, the first drawn kind falling, the
/// next five queued.
pub open spec fn initial_view(seed: u64) -> GameView {
    let s0 = seed | 1u64;
    GameView {
        board: Seq::new(200, |i: int| None),
        rng: lcg_steps(s0, 6),
        current: spawned(kind_draw(s0)),
        hold: None,
        can_hold: true,
        next: Seq::new(5, |i: int| kind_draw(lcg_steps(s0, (i + 1) as nat))),
        score: 0,
        lines: 0,
        pieces: 0,
        paused: false,
        game_over: false,
    }
}

} // verus!
