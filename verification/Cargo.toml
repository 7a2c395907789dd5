[package]
name = "restify"
version = "0.1.0"
edition = "2021"
publish = false

[dependencies]
indexmap = "2"
md5 = "0.7"
regex = "1"
schemars = "0.8"
serde = { version = "1", features = ["derive"] }
serde_json = "1"
toml = "0.8"
syn = { version = "2", features = ["full"] }
quote = "1"
proc-macro2 = "1"
axum = { version = "0.7", default-features = false }
tower-layer = "0.3"
tower-service = "0.3"
