[package]
name = "reso"
version = "0.1.0"
edition = "2021"
publish = false

[dependencies]
serde = { version = "1", features = ["derive"] }
serde_json = "=1.0.154"
toml = "0.8"
md-5 = "=0.10.6"
humantime = "=2.4.0"
chrono = "0.4"
clap = { version = "4", features = ["derive"] }
directories = "5"
thiserror = "1"
anyhow = "1"
tokio = { version = "1", features = ["full"] }
tokio-util = { version = "0.7", features = ["codec"] }
futures-util = { version = "0.3", features = ["sink"] }
reqwest = { version = "0.12", default-features = false, features = ["json", "rustls-tls"] }
crossterm = { version = "0.28", features = ["event-stream"] }
ratatui = "0.29"
realfft = "3"
zbus = { version = "5", default-features = false, features = ["tokio"] }
