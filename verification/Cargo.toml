[package]
name = "nes_online"
version = "0.1.0"
edition = "2021"
publish = false

[dependencies]
actix = "=0.13.5"
actix-cors = "=0.7.2"
actix-http = { version = "=3.20.0", default-features = false, features = ["ws"] }
actix-web = { version = "=4.18.1", default-features = false, features = ["macros", "ws"] }
actix-web-actors = "=4.3.1"
bytes = "=1.12.1"
chrono = "=0.4.45"
fern = "=0.6.2"
log = "=0.4.35"
rand = "=0.8.8"
serde = { version = "=1.0.229", features = ["derive"] }
serde_json = "=1.0.154"
tokio = { version = "=1.54.1", features = ["sync", "rt", "time"] }
