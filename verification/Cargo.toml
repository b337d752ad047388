[package]
name = "language_unpack"
version = "0.1.0"
edition = "2021"
publish = false

[dependencies]
anyhow = "1"
byteorder = "1"
clap = { version = "4", features = ["derive"] }
libbruteforce = "*"
rmp-serde = "1"
rusqlite = "*"
serde = { version = "1", features = ["derive"] }
serde_json = "1"
