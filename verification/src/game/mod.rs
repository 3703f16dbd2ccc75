//! Chess game state, notation and storage.
pub mod board;
pub mod san;
pub mod clock;
pub mod session;
pub mod pgn;
pub mod history;
pub mod roundtrip;
