[package]
name = "lynx_engine"
version = "0.1.0"
edition = "2021"
publish = false

[dependencies]
toml = { version = "=0.9.12", features = ["preserve_order"] }
serde = { version = "=1.0.229", features = ["derive"] }
serde_json = "=1.0.154"
thiserror = "=2.0.21"
tar = "=0.4.46"
zstd = "=0.13.4"
walkdir = "=2.5.0"
dirs = "=6.0.0"
log = "=0.4.35"
