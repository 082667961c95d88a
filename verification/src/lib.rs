//! Rules-and-state engine of a falling-block puzzle game for one or two
//! simultaneous players: piece spawning, movement, rotation with wall-kick
//! resolution, collision against a playing field, gravity and input timing,
//! line clearing, scoring, and inter-board garbage exchange.
//!
//! Rendering, audio playback and window plumbing are collaborators outside
//! this crate; they consume read-only snapshots of the state kept here.

pub mod block;
pub mod board;
pub mod effects;
pub mod field;
pub mod keys;
pub mod piece_generator;
pub mod rng;
pub mod score;
pub mod tetromino;
pub mod transformer;
pub mod util;
