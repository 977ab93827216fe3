[package]
name = "dash_to_hls"
version = "0.1.0"
edition = "2021"
publish = false

[dependencies]
actix-files = "=0.6.10"
actix-web = { version = "=4.18.1", default-features = false, features = ["macros", "cookies"] }
anyhow = "=1.0.104"
chrono = "=0.4.45"
dash-mpd = { version = "=0.14.9", default-features = false }
dotenvy = "=0.15.7"
env_logger = { version = "=0.11.11", default-features = false }
futures-util = "=0.3.34"
jsonwebtoken = { version = "=9.3.1", default-features = false }
log = "=0.4.34"
mp4decrypt = "=0.4.2"
once_cell = "=1.21.4"
reqwest = { version = "=0.12.28", default-features = false, features = ["blocking", "default-tls"] }
serde = { version = "=1.0.229", features = ["derive"] }
serde_json = "=1.0.154"
tempfile = "=3.27.0"
toml = "=0.8.23"
url = "=2.5.8"
