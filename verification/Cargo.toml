[package]
name = "solidity_ast"
version = "0.1.0"
edition = "2021"
publish = false

[dependencies]
foundry-compilers = { version = "=0.19.14", default-features = false }
semver = "1"
serde = { version = "1", features = ["derive"] }
serde_json = "1"
rayon = "1"
walkdir = "2"
