//! p2pawn: a peer-to-peer LAN chess client, verified core.
//!
//! The chess rules come from the `chess` crate; this library holds the
//! game session, clock, notation (SAN/UCI/PGN), replay, configuration
//! and wire-protocol logic, each with its contract.
pub mod text;
pub mod game;
pub mod util;
pub mod config;
pub mod net;
pub mod app;
pub mod input;
pub mod ui;
pub mod order;
