[package]
name = "bitcoin_handshake"
version = "0.1.0"
edition = "2021"
publish = false

[dependencies]
anyhow = "1"
bitcoin = "0.32"
bytes = "1"
chrono = "0.4"
clap = { version = "4", features = ["derive"] }
dotenv = "0.15"
futures = "0.3"
log = "0.4"
rand = "0.8"
thiserror = "1"
tokio = { version = "1", features = ["macros", "net", "rt-multi-thread", "time"] }
tokio-util = { version = "0.7", features = ["codec"] }
tracing = "0.1"
tracing-subscriber = { version = "0.3", features = ["env-filter"] }
