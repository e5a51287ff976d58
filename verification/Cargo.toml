[package]
name = "liblis"
version = "0.1.0"
edition = "2021"
publish = false

[dependencies]
flate2 = "=1.1.10"
quick-xml = "=0.42.0"
serde_json = { version = "=1.0.154", features = ["preserve_order"] }
tar = "=0.4.46"
toml = { version = "=1.1.8", features = ["preserve_order"] }
walkdir = "=2.5.0"
