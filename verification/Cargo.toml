[package]
name = "diptych"
version = "0.1.0"
edition = "2021"
publish = false

[dependencies]
rand = "*"
sha2 = "*"
hex = "*"
chrono = "*"
serde = { version = "*", features = ["derive"] }
toml = "*"
dirs = "*"
open = "*"
image = "*"
