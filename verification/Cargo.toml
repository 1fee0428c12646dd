[package]
name = "tskmstr"
version = "0.1.0"
edition = "2021"
publish = false

[dependencies]
anyhow = "1"
base64 = "0.21"
clap = { version = "4", features = ["derive"] }
colored = "2"
directories = "5"
keyring = "2"
log = "0.4"
reqwest = { version = "0.11", default-features = false, features = ["json", "multipart", "rustls-tls"] }
serde = { version = "1", features = ["derive"] }
serde-inline-default = "*"
serde_json = "1"
serde_yaml = "0.9"
simple_logger = "4"
tokio = { version = "1", features = ["macros", "rt-multi-thread"] }
