[package]
name = "ocmapgen"
version = "0.1.0"
edition = "2021"
publish = false

[dependencies]
image = "*"
regex = "*"
clap = "*"
notify = "*"
serde = { version = "*", features = ["derive"] }
serde_cbor = "*"
serde_bytes = "*"
