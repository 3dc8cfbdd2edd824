[package]
name = "issue_tracker"
version = "0.1.0"
edition = "2021"
publish = false

[dependencies]
anyhow = "1"
clearscreen = "2"
ellipse = "0.2"
itertools = "0.10"
serde = { version = "1", features = ["derive"] }
serde_json = "1"
