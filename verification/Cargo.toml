[package]
name = "uniffi_bindgen"
version = "0.1.0"
edition = "2021"
publish = false

[dependencies]
anyhow = "1"
cargo_metadata = "*"
clap = "2"
syn = { version = "1", features = ["full"] }
