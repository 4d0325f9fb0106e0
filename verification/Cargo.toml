[package]
name = "anyplug"
version = "0.1.0"
edition = "2021"
publish = false

[dependencies]
ring = "0.17"
uuid = { version = "1", features = ["v7"] }
crossbeam = "0.8"
rusb = "0.9"
tokio = { version = "1", features = ["full"] }
tokio-util = "0.7"
rand = "0.8"
serde = { version = "1", features = ["derive"] }
serde_json = "1"
toml = "0.8"
thiserror = "1"
tracing = "0.1"
tracing-subscriber = { version = "0.3", features = ["env-filter"] }
clap = { version = "4", features = ["derive"] }
axum = { version = "0.7", features = ["ws"] }
tower-http = { version = "0.5", features = ["cors"] }
futures = "0.3"
mdns-sd = "*"
gethostname = "*"
utoipa = "4"
prometheus = "0.13"
dirs = "5"
libc = "0.2"
