[package]
name = "libreadymade"
version = "0.1.0"
edition = "2021"
publish = false

[dependencies]
color-eyre = "0.6"
enum_dispatch = "0.3"
nix = "0.29"
serde = { version = "1", features = ["derive"] }
tempfile = "3"
tracing = "0.1"
