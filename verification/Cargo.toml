[package]
name = "pumpkin"
version = "0.1.0"
edition = "2021"
publish = false

[dependencies]
rand = "*"
serde_json = "*"
thiserror = "*"
tokio = { version = "*", features = ["sync"] }
uuid = "*"
zip = { version = "*", default-features = false, features = ["deflate"] }
