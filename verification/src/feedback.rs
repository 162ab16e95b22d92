//! What the player is shown and played after an action: which sound fits the
//! change of state, and how the fading trail of the falling piece advances.
use vstd::prelude::*;

use crate::ai::AiAction;
use crate::game::Game;
use crate::pieces::{Kind, Piece};

verus! {

/// The parts of a game that decide which sound an action earns.
#[derive(Clone, Copy, Debug, PartialEq, Eq, Structural)]
pub struct Snapshot {
    pub piece: Piece,
    pub hold: Option<Kind>,
    pub lines: u32,
    pub pieces: u32,
    pub game_over: bool,
}

/// The sound an input asks for when it changes nothing more important.
#[derive(Clone, Copy, Debug, PartialEq, Eq, Structural)]
pub enum InputSound {
    Move,
    Rotate,
    Lock,
    Hold,
}

/// A sound to play.
#[derive(Clone, Copy, Debug, PartialEq, Eq, Structural)]
pub enum Cue {
    GameOver,
    Clear,
    Lock,
    Move,
    Rotate,
    Hold,
}

/// What a fresh frame does to the trail of the falling piece.
#[derive(Clone, Copy, Debug, PartialEq, Eq, Structural)]
pub enum TrailStep {
    /// Forget the trail and follow the current piece from here.
    Reset,
    /// The piece moved: add its previous position to the trail.
    Record,
    /// Nothing changed.
    Keep,
}

/// The sound each action asks for.
pub open spec fn input_sound_spec(action: AiAction) -> Option<InputSound> {
    match action {
        AiAction::MoveLeft | AiAction::MoveRight | AiAction::SoftDrop => Some(InputSound::Move),
        AiAction::RotateCw | AiAction::RotateCcw => Some(InputSound::Rotate),
        AiAction::HardDrop => Some(InputSound::Lock),
        AiAction::Hold => Some(InputSound::Hold),
    }
}

/// The sound for going from `before` to `after`: the game ending, then a
/// clear, then a lock take precedence; otherwise the input's own sound plays
/// when it had an effect (a move that moved, a rotation that turned or
/// shifted the piece, a hold that changed the held kind); a hard drop's own
/// sound is the lock, so it adds none.
pub open spec fn cue_spec(before: Snapshot, after: Snapshot, fallback: Option<InputSound>) -> Option<
    Cue,
> {
    if !before.game_over && after.game_over {
        Some(Cue::GameOver)
    } else if after.lines > before.lines {
        Some(Cue::Clear)
    } else if after.pieces > before.pieces {
        Some(Cue::Lock)
    } else {
        let moved = after.piece.x != before.piece.x || after.piece.y != before.piece.y;
        let rotated = after.piece.rotation != before.piece.rotation;
        let held = after.hold != before.hold;
        match fallback {
            Some(InputSound::Move) => if moved {
                Some(Cue::Move)
            } else {
                None
            },
            Some(InputSound::Rotate) => if rotated || moved {
                Some(Cue::Rotate)
            } else {
                None
            },
            Some(InputSound::Hold) => if held {
                Some(Cue::Hold)
            } else {
                None
            },
            _ => None,
        }
    }
}

/// How the trail advances: it restarts when the game is over, a piece has
/// locked, the kind changed or the piece jumped more than three rows up; it
/// records the previous position when the piece moved; otherwise it stays.
pub open spec fn trail_step_spec(
    game_over: bool,
    pieces: u32,
    current: Piece,
    last_piece: Piece,
    last_count: u32,
) -> TrailStep {
    if game_over || pieces != last_count || current.kind != last_piece.kind || current.y
        < last_piece.y - 3 {
        TrailStep::Reset
    } else if current != last_piece {
        TrailStep::Record
    } else {
        TrailStep::Keep
    }
}

/// The parts of `game` that decide the sound of an action.
pub fn snapshot(game: &Game) -> (s: Snapshot)
    ensures
        s == (Snapshot {
            piece: game@.current,
            hold: game@.hold,
            lines: game@.lines as u32,
            pieces: game@.pieces as u32,
            game_over: game@.game_over,
        }),
{
    Snapshot {
        piece: game.current(),
        hold: game.hold(),
        lines: game.lines(),
        pieces: game.pieces(),
        game_over: game.is_game_over(),
    }
}

/// The sound each action asks for; see `input_sound_spec`.
pub fn input_sound_for(action: AiAction) -> (s: Option<InputSound>)
    ensures
        s == input_sound_spec(action),
{
    match action {
        AiAction::MoveLeft | AiAction::MoveRight | AiAction::SoftDrop => Some(InputSound::Move),
        AiAction::RotateCw | AiAction::RotateCcw => Some(InputSound::Rotate),
        AiAction::HardDrop => Some(InputSound::Lock),
        AiAction::Hold => Some(InputSound::Hold),
    }
}

fn same_hold(a: Option<Kind>, b: Option<Kind>) -> (r: bool)
    ensures
        r == (a == b),
{
    match (a, b) {
        (Some(x), Some(y)) => x == y,
        (None, None) => true,
        _ => false,
    }
}

/// The sound for going from `before` to `after`; see `cue_spec`.
pub fn outcome_cue(before: Snapshot, after: Snapshot, fallback: Option<InputSound>) -> (c: Option<
    Cue,
>)
    ensures
        c == cue_spec(before, after, fallback),
{
    if !before.game_over && after.game_over {
        return Some(Cue::GameOver);
    }
    if after.lines > before.lines {
        return Some(Cue::Clear);
    }
    if after.pieces > before.pieces {
        return Some(Cue::Lock);
    }
    let moved = after.piece.x != before.piece.x || after.piece.y != before.piece.y;
    let rotated = after.piece.rotation != before.piece.rotation;
    let held = !same_hold(after.hold, before.hold);
    match fallback {
        Some(InputSound::Move) if moved => Some(Cue::Move),
        Some(InputSound::Rotate) if rotated || moved => Some(Cue::Rotate),
        Some(InputSound::Hold) if held => Some(Cue::Hold),
        _ => None,
    }
}

/// How the trail advances this frame; see `trail_step_spec`.
pub fn trail_step(
    game_over: bool,
    pieces: u32,
    current: Piece,
    last_piece: Piece,
    last_count: u32,
) -> (s: TrailStep)
    requires
        last_piece.y >= i32::MIN + 3,
    ensures
        s == trail_step_spec(game_over, pieces, current, last_piece, last_count),
{
    if game_over || pieces != last_count || current.kind != last_piece.kind || current.y
        < last_piece.y - 3 {
        TrailStep::Reset
    } else if current != last_piece {
        TrailStep::Record
    } else {
        TrailStep::Keep
    }
}

/// The sound an action earns ranks its effects: the game ending first; then,
/// if the line count rose, the clear sound whatever else happened; then, if a
/// piece locked, the lock sound; only an action that did none of these plays
/// its own sound, and then only if it had an effect.
pub proof fn lemma_cue_priority(before: Snapshot, after: Snapshot, fallback: Option<InputSound>)
    ensures
        !before.game_over && after.game_over ==> cue_spec(before, after, fallback) == Some(
            Cue::GameOver,
        ),
        !(!before.game_over && after.game_over) && after.lines > before.lines ==> cue_spec(
            before,
            after,
            fallback,
        ) == Some(Cue::Clear),
        !(!before.game_over && after.game_over) && after.lines <= before.lines && after.pieces
            > before.pieces ==> cue_spec(before, after, fallback) == Some(Cue::Lock),
        cue_spec(before, after, fallback) == Some(Cue::Move) ==> fallback == Some(InputSound::Move)
            && after.piece != before.piece,
        cue_spec(before, after, fallback) == Some(Cue::Hold) ==> fallback == Some(InputSound::Hold)
            && after.hold != before.hold,
        fallback == Some(InputSound::Lock) ==> cue_spec(before, after, fallback) != Some(Cue::Move)
            && cue_spec(before, after, fallback) != Some(Cue::Rotate) && cue_spec(
            before,
            after,
            fallback,
        ) != Some(Cue::Hold),
{
}

} // verus!
