[package]
name = "pdf_tag_remover"
version = "0.1.0"
edition = "2021"
publish = false

[dependencies]
lopdf = "*"
regex = "*"
actix-web = "*"
base64 = "*"
serde = { version = "*", features = ["derive"] }
serde_json = "*"
env_logger = "*"
log = "*"
