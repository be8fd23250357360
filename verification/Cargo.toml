[package]
name = "mcl_core"
version = "0.1.0"
edition = "2021"
publish = false

[dependencies]
openssl = "*"
hex = "*"
serde = { version = "*", features = ["derive"] }
serde_json = "*"
reqwest = "*"
tokio = { version = "*", features = ["full"] }
futures = "*"
zip = { version = "*", default-features = false, features = ["deflate"] }
directories = "*"
