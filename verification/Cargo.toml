[package]
name = "perf_probe"
version = "0.1.0"
edition = "2021"
publish = false

[dependencies]
anyhow = "*"
lexopt = "*"
rand = "*"
rayon = "*"
serde = { version = "*", features = ["derive"] }
toml = "*"
