[package]
name = "mesh_mailbox"
version = "0.1.0"
edition = "2021"
publish = false

[dependencies]
chrono = "0.4"
env_logger = "0.11"
hex = "0.4"
hmac = "0.12"
log = "0.4"
reqwest = { version = "0.12", default-features = false, features = ["json", "rustls-tls"] }
serde_json = "1"
sha2 = "0.10"
tokio = { version = "1", features = ["macros", "rt-multi-thread"] }
uuid = { version = "1", features = ["v4"] }
