[package]
name = "countdown_widget"
version = "0.1.0"
edition = "2021"
publish = false

[dependencies]
chrono = "*"
clap = { version = "*", features = ["derive"] }
colored = "*"
crossterm = "*"
ctrlc = "*"
serde = { version = "*", features = ["derive"] }
serde_derive = "*"
tokio = { version = "*", features = ["rt-multi-thread", "macros", "sync", "time"] }
toml = "*"
