[package]
name = "jpick"
version = "0.1.0"
edition = "2021"
publish = false

[dependencies]
serde_json = { version = "*", features = ["preserve_order"] }
anyhow = "*"
bpaf = { version = "*", features = ["derive"] }
ctrlc = "*"
dialoguer = { version = "*", features = ["fuzzy-select"] }
