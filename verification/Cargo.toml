[package]
name = "print_break"
version = "0.1.0"
edition = "2021"

[dependencies]
backtrace = "=0.3.76"
serde_json = { version = "=1.0.154", features = ["preserve_order"] }
serde_yaml = "=0.9.34"
toml = "=0.8.23"
