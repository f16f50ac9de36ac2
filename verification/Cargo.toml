[package]
name = "whyrc"
version = "0.1.0"
edition = "2021"
publish = false

[dependencies]
rand = "0.8"
serde = { version = "1", features = ["derive"] }
serde_json = "1"
clap = { version = "3.2", features = ["derive"] }
crossterm = "0.25"
tui = "0.19"
tui-textarea = "0.2"
