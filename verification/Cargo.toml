[package]
name = "hmm_app"
version = "0.1.0"
edition = "2021"
publish = false

[dependencies]
anyhow = "=1.0.104"
getrandom = "=0.4.3"
serde_json = "=1.0.154"
sha2 = "=0.10.9"
thiserror = "=1.0.69"
uuid = { version = "=1.29.0", features = ["v4"] }
