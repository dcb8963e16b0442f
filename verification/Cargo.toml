[package]
name = "coherence"
version = "0.1.0"
edition = "2021"
publish = false

[dependencies]
z3 = "*"
serde = { version = "*", features = ["derive"] }
anyhow = "*"
clap = { version = "*", features = ["derive"] }
