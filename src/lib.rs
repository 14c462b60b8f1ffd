//! Morse code output on a single digital pin.
//!
//! Text is turned into a timed sequence of pin levels and pauses. Only the
//! letters `a-z`, `A-Z` and the space are sent; every other character is
//! skipped.
pub mod emitter;
pub mod laws;
pub mod symbol;
pub mod transmission;

pub use emitter::{Action, Morse};
pub use symbol::{lookup, SymbolCode};
pub use transmission::{Outcome, Transmission};
