[package]
name = "git_logue"
version = "0.1.0"
edition = "2021"
publish = false

[dependencies]
anyhow = "1"
chrono = { version = "0.4", default-features = false, features = ["clock", "std"] }
clap = { version = "4", features = ["derive"] }
gix = { version = "*", default-features = false, features = ["blob-diff", "revision", "sha1"] }
globset = "0.4"
rand = "0.9"
ratatui = { version = "0.29", default-features = false }
