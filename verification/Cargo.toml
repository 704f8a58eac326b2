[package]
name = "oclus_server"
version = "0.1.0"
edition = "2021"
publish = false

[dependencies]
bcrypt = "=0.19.3"
jsonwebtoken = { version = "=11.1.0", features = ["rust_crypto"] }
totp-rs = "=6.0.0"
chrono = "=0.4.45"
serde = { version = "=1.0.229", features = ["derive"] }
validator = { version = "=0.21.0", features = ["derive"] }
actix-web = "=4.15.0"
thiserror = "=2.0.21"
log = "=0.4.34"
env_logger = "=0.11.11"
dotenv = "=0.15.0"
