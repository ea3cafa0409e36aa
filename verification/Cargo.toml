[package]
name = "fesh"
version = "0.1.0"
edition = "2021"
publish = false

[dependencies]
clap = { version = "*", features = ["derive"] }
colored = "*"
rustyline = { version = "*", features = ["derive"] }
serde = { version = "*", features = ["derive"] }
toml = "*"
