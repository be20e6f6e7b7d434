[package]
name = "tree_logger"
version = "0.1.0"
edition = "2021"
publish = false

[dependencies]
ansi_term = "0.12"
colored = "2"
log = { version = "0.4", features = ["kv"] }
rustc-hash = "1.1"
strip-ansi-escapes = "0.2"
termsize = "0.1"
