[package]
name = "doxcer"
version = "0.1.0"
edition = "2021"
publish = false

[dependencies]
azure_identity = "*"
azure_security_keyvault_secrets = "*"
chrono = "*"
chrono-tz = "*"
dotenvy = "*"
odbc-api = "*"
reqwest = { version = "*", default-features = false, features = ["blocking", "json"] }
serde = { version = "*", features = ["derive"] }
serde_json = "*"
tokio = { version = "*", features = ["rt-multi-thread"] }
