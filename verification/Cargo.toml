[package]
name = "random_chess"
version = "0.1.0"
edition = "2021"
publish = false

[dependencies]
chess = "3.2"
fixed = "1"
ansi_term = "0.12"
clap = { version = "4", features = ["derive"] }
rand = "0.8"
serde = { version = "1", features = ["derive"] }
