[package]
name = "fusion"
version = "0.1.0"
edition = "2021"
publish = false

[dependencies]
regex = "=1.13.1"
slotmap = "=1.1.1"
serde = { version = "=1.0.229", features = ["derive"] }
postcard = { version = "=1.1.3", features = ["use-std"] }
comfy-table = "=7.2.2"
anyhow = "1"
clap = { version = "4", features = ["derive"] }
walkdir = "2"
zip = { version = "2", default-features = false }
cargo-manifest = "*"
cargo_metadata = "*"
