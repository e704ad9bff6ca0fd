[package]
name = "cargo_upgrade"
version = "0.1.0"
edition = "2021"
publish = false

[dependencies]
cargo-edit = "0.3"
cargo_metadata = "0.8"
docopt = "1"
error-chain = "0.12"
serde = "1"
serde_derive = "1"
toml = "0.4"
