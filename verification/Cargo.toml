[package]
name = "clone_manager"
version = "0.1.0"
edition = "2021"
publish = false

[dependencies]
anyhow = "=1.0.104"
log = "=0.4.35"
hdi = "=0.6.6"
hdk = "=0.5.6"
holo_hash = { version = "=0.5.6", features = ["hashing"] }
holochain_serialized_bytes = "=0.0.56"
serde = { version = "=1.0.219", features = ["derive"] }
