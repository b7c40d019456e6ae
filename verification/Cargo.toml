[package]
name = "passm"
version = "0.1.0"
edition = "2021"
publish = false

[dependencies]
base64 = "0.22"
chacha20poly1305 = "0.10"
ring = "0.17"
clap = "4"
colored = "2"
dialoguer = "0.11"
dirs = "5"
dotenv = "0.15"
serde = { version = "1", features = ["derive"] }
serde_json = "1"
