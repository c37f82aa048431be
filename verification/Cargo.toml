[package]
name = "satsuki"
version = "0.1.0"
edition = "2021"
publish = false

[dependencies]
object = { version = "=0.40.0", features = ["write"] }
pdb = "=0.8.0"
capstone = "=0.14.0"
serde = { version = "=1.0.229", features = ["derive"] }
toml = "=1.1.6"
argh = "=0.1.19"
