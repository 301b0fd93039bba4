[package]
name = "osm_export"
version = "0.1.0"
edition = "2021"
publish = false

[dependencies]
toml = "=0.5.11"
zip = { version = "=0.6.6", default-features = false, features = ["deflate"] }
walkdir = "=2.5.0"
rust-s3 = "=0.33.0"
tokio = { version = "=1.54.1", features = ["fs", "macros", "rt-multi-thread"] }
env_logger = "=0.10.2"
log = "=0.4.34"
