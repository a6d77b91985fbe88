[package]
name = "git_ghosts"
version = "0.1.0"
edition = "2021"
publish = false

[dependencies]
clap = { version = "4", features = ["derive"] }
colored = "2"
git2 = { version = "*", default-features = false }
serde = { version = "1", features = ["derive"] }
serde_json = "1"
