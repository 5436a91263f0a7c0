[package]
name = "glim"
version = "0.1.0"
edition = "2021"
publish = false

[dependencies]
chrono = "0.4"
itertools = "*"
tui-input = "*"
crossterm = "*"
ratatui = "*"
arboard = "*"
open = "*"
confy = "*"
serde = { version = "1", features = ["derive"] }
compact_str = { version = "*", features = ["serde"] }
tracing = "0.1"
