[package]
name = "gandiva_rust_udf"
version = "0.1.0"
edition = "2021"
publish = false

[dependencies]
syn = { version = "=2.0.119", features = ["full"] }
quote = "=1.0.47"
toml = "=0.8.23"
walkdir = "=2.5.0"
libc = "=0.2.190"

[dev-dependencies]
serde_json = "=1.0.151"
