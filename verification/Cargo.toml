[package]
name = "paste_service"
version = "0.1.0"
edition = "2021"
publish = false

[dependencies]
rand = "=0.8.8"
chrono = { version = "=0.4.45", features = ["serde"] }
serde = { version = "=1.0.229", features = ["derive"] }
tokio = { version = "=1.54.1", features = ["sync", "rt", "macros"] }
tokio-postgres = { version = "=0.7.18", features = ["with-chrono-0_4"] }
actix-web = "=4.18.1"
actix-cors = "=0.7.2"
