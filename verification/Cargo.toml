[package]
name = "context_server"
version = "0.1.0"
edition = "2021"
publish = false

[dependencies]
anyhow = "1"
async-trait = "0.1"
futures = "0.3"
log = "0.4"
parking_lot = "0.12"
postage = "0.5"
serde = { version = "1", features = ["derive"] }
serde_json = { version = "1", features = ["preserve_order", "raw_value"] }
slotmap = "1"
smol = "2"
url = "2"
