use vstd::prelude::*;

use crate::tetromino::Tetromino;

verus! {

/// A transient banner shown over the board; it expires one second after
/// `time`, the moment it was created.
#[derive(Debug, PartialEq, Eq)]
pub struct InfoText {
    pub text: String,
    pub time: u64,
}

/// How long an info banner stays up, in milliseconds.
pub const INFO_TEXT_MS: u64 = 1000;

/// A game event the rules engine emits for its cosmetic collaborators:
/// camera-shake impulses, particles and sounds are driven from these, so the
/// engine itself stays free of the spring and particle simulation.
#[derive(Debug, Clone, Copy, PartialEq, Eq, Structural)]
pub enum BoardEvent {
    /// A horizontal move was blocked by a wall or the stack.
    WallBump { to_right: bool },
    /// One gravity step taken at the fast soft-drop rate.
    SoftDropStep,
    /// The piece was hard-dropped from `from_y` down to its rest position.
    HardDropped { piece: Tetromino, from_y: i32 },
    /// The falling piece was baked into the field at this position.
    PieceLanded { piece: Tetromino },
    /// The full row at this absolute index was removed.
    LineCleared { row: u32 },
    /// At least one line cleared; the clear sound plays at the combo pitch.
    ClearSound { combo: u32 },
    /// The placement produced this many attack lines before cancellation.
    Attack { count: u32 },
    /// This many garbage rows materialized at the bottom of the field.
    GarbageAbsorbed { count: u32 },
}

} // verus!
