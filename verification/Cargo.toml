[package]
name = "tsoracle"
version = "0.1.0"
edition = "2021"
publish = false

[dependencies]
anyhow = "=1.0.104"
bincode = "=1.3.3"
clap = { version = "=4.6.7", features = ["derive"] }
futures = "=0.3.34"
humantime = "=2.4.0"
openraft = "=0.9.25"
parking_lot = "=0.12.5"
postcard = { version = "=1.1.3", features = ["use-std"] }
rand = "=0.9.5"
serde = { version = "=1.0.229", features = ["derive"] }
thiserror = "=2.0.21"
tokio = { version = "=1.54.1", features = ["full"] }
tonic = { version = "=0.14.9", features = ["tls-ring"] }
tracing = "=0.1.44"
tracing-subscriber = { version = "=0.3.23", features = ["env-filter"] }
