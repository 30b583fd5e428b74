[package]
name = "passkey_auth"
version = "0.1.0"
edition = "2021"
publish = false

[dependencies]
webauthn-rs = { version = "*", features = ["danger-allow-state-serialisation"] }
serde = { version = "*", features = ["derive"] }
serde_json = "*"
thiserror = "*"
anyhow = "*"
url = "*"
env_logger = "*"
tokio = { version = "*", features = ["macros", "rt-multi-thread"] }
actix-web = { version = "*", default-features = false, features = ["cookies", "macros"] }
actix-session = { version = "*", features = ["cookie-session"] }
actix-files = "*"
