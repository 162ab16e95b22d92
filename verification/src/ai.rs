//! The bot's side of the game: what a chosen placement asks of the falling
//! piece, one action at a time.
use vstd::prelude::*;

use crate::model::GameView;
use crate::pieces::Kind;

verus! {

/// An action the bot can take.
#[derive(Clone, Copy, Debug, PartialEq, Eq, Structural)]
pub enum AiAction {
    MoveLeft,
    MoveRight,
    SoftDrop,
    RotateCw,
    RotateCcw,
    HardDrop,
    Hold,
}

/// Where the bot wants the falling piece: whether to hold first, and the
/// column and rotation to drop it at.
#[derive(Clone, Copy, Debug, PartialEq, Eq, Structural)]
pub struct AiPlan {
    pub use_hold: bool,
    pub target_x: i32,
    pub target_rotation: usize,
}

/// The next action toward `plan` in state `g`: nothing while paused or over
/// or without a plan; hold if the plan asks for it and it is allowed; else
/// turn the shorter way (clockwise on a tie) until the rotation matches
/// modulo 4, then step toward the target column, then drop.
pub open spec fn ai_step(g: GameView, plan: Option<AiPlan>) -> Option<AiAction> {
    if !g.active() {
        None
    } else {
        match plan {
            None => None,
            Some(p) => if p.use_hold && g.can_hold {
                Some(AiAction::Hold)
            } else {
                let c = g.current.rotation % 4;
                let t = p.target_rotation % 4;
                if c != t {
                    if (t + 4 - c) % 4 <= (c + 4 - t) % 4 {
                        Some(AiAction::RotateCw)
                    } else {
                        Some(AiAction::RotateCcw)
                    }
                } else if g.current.x < p.target_x {
                    Some(AiAction::MoveRight)
                } else if g.current.x > p.target_x {
                    Some(AiAction::MoveLeft)
                } else {
                    Some(AiAction::HardDrop)
                }
            },
        }
    }
}

/// What holding would give the search to place now and to look ahead to:
/// the held kind and the first queued kind, or, with nothing held, the first
/// two queued kinds. `None` when holding is not allowed.
pub open spec fn hold_choice(g: GameView) -> Option<(Kind, Kind)> {
    if !g.can_hold {
        None
    } else {
        match g.hold {
            Some(held) => Some((held, g.next[0])),
            None => Some((g.next[0], g.next[1])),
        }
    }
}

} // verus!
