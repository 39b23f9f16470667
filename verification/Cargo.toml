[package]
name = "vna"
version = "0.1.0"
edition = "2021"
publish = false

[dependencies]
serde_yaml = "0.9"
shlesha = "*"
unicode-segmentation = "1"
anyhow = "1"
clap = { version = "4", features = ["derive"] }
colored = "*"
env_logger = "*"
glob = "*"
serde = { version = "1", features = ["derive"] }
tokio = { version = "1", features = ["rt-multi-thread", "io-std", "sync", "macros"] }
tower-lsp = "*"
wasm-bindgen = "0.2"
serde-wasm-bindgen = "*"
console_error_panic_hook = "0.1"
