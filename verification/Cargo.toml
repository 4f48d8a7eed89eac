[package]
name = "hifirs"
version = "0.1.0"
edition = "2021"
publish = false

[dependencies]
axum = { version = "=0.7.9", features = ["ws"] }
base64 = "=0.21.7"
chrono = "=0.4.45"
clap = { version = "=4.6.7", features = ["derive"] }
crossterm = "0.25"
ctrlc = "=3.5.2"
dialoguer = "=0.10.4"
dirs = "=5.0.1"
flume = "=0.11.1"
futures = "=0.3.34"
log = "=0.4.34"
md5 = "=0.7.0"
mime_guess = "=2.0.5"
pretty_env_logger = "=0.5.0"
regex = "=1.13.1"
reqwest = { version = "=0.11.27", default-features = false, features = ["cookies", "stream", "rustls-tls"] }
serde = { version = "=1.0.229", features = ["derive"] }
serde_json = "=1.0.154"
textwrap = "=0.16.4"
tokio = { version = "=1.54.1", features = ["full"] }
tokio-stream = "=0.1.19"
tower-http = { version = "=0.5.2", features = ["cors"] }
tracing = "=0.1.44"
tui = "=0.19.0"
