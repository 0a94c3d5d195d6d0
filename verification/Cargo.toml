[package]
name = "tremolite"
version = "0.3.0"
edition = "2021"
publish = false

[dependencies]
serde = { version = "=1.0.229", features = ["derive"] }
serde_json = "=1.0.154"
toml = "=0.8.23"
rand = "=0.8.8"
rand_distr = "=0.4.3"
chrono = "=0.4.45"
reqwest = { version = "0.12", default-features = false, features = ["blocking", "json", "native-tls"] }
tokio = { version = "1", features = ["rt-multi-thread", "macros", "net", "sync", "time"] }
tokio-tungstenite = { version = "0.24", features = ["native-tls"] }
futures-util = "0.3"
crossterm = "0.28"
ratatui = "0.29"
unicode-width = "0.2"
axum = "0.7"
