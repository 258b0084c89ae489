[package]
name = "musicxml_to_scorify"
version = "0.1.0"
edition = "2021"
publish = false

[dependencies]
roxmltree = "0.20"
zip = { version = "2", default-features = false, features = ["deflate"] }
serde = { version = "1", features = ["derive"] }
serde_json = "1"
thiserror = "1"
anyhow = "1"
clap = { version = "4", features = ["derive"] }
wasm-bindgen = "0.2"
