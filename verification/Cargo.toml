[package]
name = "nixcache"
version = "0.1.0"
edition = "2021"
publish = false

[dependencies]
anyhow = "*"
brotli = "*"
csv = "*"
nix-editor = "*"
reqwest = { version = "*", default-features = false, features = ["blocking", "brotli"] }
serde = { version = "*", features = ["derive"] }
serde_json = "*"
sqlx = { version = "*", default-features = false, features = ["runtime-tokio", "sqlite", "migrate"] }
