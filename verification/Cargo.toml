[package]
name = "loader_compilation"
version = "0.1.0"
edition = "2021"
publish = false

[dependencies]
anyhow = "1"
either = "1"
regex = "1"
serde = { version = "1", features = ["derive"] }
serde_json = "1"
swc_core = { version = "*", features = ["common", "ecma_ast", "ecma_visit", "ecma_transforms"] }
