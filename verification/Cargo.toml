[package]
name = "workspacectl"
version = "0.1.0"
edition = "2021"
publish = false

[dependencies]
anyhow = "*"
atomicwrites = "*"
clap = { version = "*", features = ["derive"] }
dirs = "*"
log = "*"
serde = { version = "*", features = ["derive"] }
serde_derive = "*"
serde_json = "*"
toml = "*"
walkdir = "*"
