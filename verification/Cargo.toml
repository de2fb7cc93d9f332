[package]
name = "mailgraph"
version = "0.1.0"
edition = "2021"
publish = false

[dependencies]
anyhow = "*"
clap = { version = "*", features = ["derive"] }
csv = "*"
env_logger = "*"
indicatif = "*"
log = "*"
mail-parser = "*"
rayon = "*"
