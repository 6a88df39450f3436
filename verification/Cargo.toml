[package]
name = "tct"
version = "0.1.0"
edition = "2021"
publish = false

[dependencies]
anyhow = "*"
bincode = "=1.3.3"
comfy-table = "*"
csv = "*"
directories = "*"
ed25519-consensus = "*"
hex = "*"
rand = "*"
rand_core = "*"
regex = "*"
serde = { version = "*", features = ["derive"] }
serde_json = "*"
structopt = "*"
tendermint = "*"
tendermint-config = "*"
