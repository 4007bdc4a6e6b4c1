[package]
name = "script_host"
version = "0.1.0"
edition = "2021"
publish = false

[dependencies]
rhai = "*"
macroquad = "*"
anyhow = "*"
toml = "*"
serde = { version = "*", features = ["derive"] }
futures = "*"
fuzzy-matcher = "*"
