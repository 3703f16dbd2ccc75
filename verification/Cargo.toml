[package]
name = "p2pawn"
version = "0.1.0"
edition = "2021"
publish = false

[dependencies]
chess = "3.2"
crossterm = "0.28"
dirs = "6"
if-addrs = "0.13"
ratatui = "0.29"
serde = { version = "1", features = ["derive"] }
serde_json = "1"
socket2 = { version = "0.5", features = ["all"] }
toml = "0.8"
