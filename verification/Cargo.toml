[package]
name = "mcp_auth_proxy"
version = "0.1.0"
edition = "2021"
publish = false

[dependencies]
aes-gcm = "=0.10.3"
anyhow = "=1.0.104"
axum = "=0.8.9"
clap = { version = "=4.6.7", features = ["derive"] }
dirs = "=6.0.0"
futures-util = "=0.3.34"
hostname = "=0.4.2"
http = "=1.5.0"
keepass = "0.7"
keyring = { version = "=3.6.3", features = ["apple-native", "windows-native", "linux-native"] }
oauth2 = { version = "=5.0.0", default-features = false, features = ["reqwest"] }
open = "=5.4.5"
rand = "=0.8.8"
reqwest = { version = "=0.12.28", default-features = false, features = ["json", "stream", "rustls-tls"] }
serde = { version = "=1.0.229", features = ["derive"] }
serde_json = "=1.0.154"
sha2 = "=0.10.9"
tokio = { version = "=1.54.1", features = ["full"] }
toml = "=0.8.23"
tracing = "=0.1.44"
tracing-subscriber = { version = "=0.3.23", features = ["env-filter"] }
url = "=2.5.8"
whoami = "=1.6.1"
