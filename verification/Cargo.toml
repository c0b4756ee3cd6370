[package]
name = "irontrack"
version = "0.1.0"
edition = "2021"
publish = false

[dependencies]
rusqlite = { version = "=0.31.0", features = ["bundled", "functions"] }
quick-xml = "=0.36.2"
subtle = "=2.6.1"
rand = "=0.8.8"
serde = { version = "=1.0.229", features = ["derive"] }
serde_json = "=1.0.154"
thiserror = "=1.0.69"
anyhow = "=1.0.104"
log = "=0.4.35"
zip = { version = "=2.6.1", default-features = false, features = ["deflate"] }
tiff = "=0.9.1"
egm96 = { version = "=0.3.2", default-features = false }
egm2008 = "=0.1.0"
geographiclib-rs = "=0.2.7"
dirs = "=5.0.1"
clap = { version = "=4.6.7", features = ["derive"] }
rayon = "=1.12.0"
tokio = { version = "=1.54.1", features = ["full"] }
axum = { version = "=0.7.9", features = ["ws"] }
tower-http = { version = "=0.5.2", features = ["cors"] }
tokio-util = { version = "=0.7.20", features = ["io"] }
deadpool-sqlite = "=0.8.1"
local-ip-address = "=0.6.13"
mdns-sd = "=0.11.5"
reqwest = { version = "=0.12.28", default-features = false, features = ["blocking", "json", "rustls-tls"] }
serialport = { version = "=4.10.1", default-features = false }
tokio-serial = { version = "=5.5.0", default-features = false }

[dev-dependencies]
tempfile = "=3.27.0"
flate2 = "=1.1.10"
