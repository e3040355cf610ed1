[package]
name = "gpam"
version = "0.1.0"
edition = "2021"
publish = false

[dependencies]
anyhow = "1"
async-trait = "0.1"
clap = { version = "4", features = ["derive"] }
crossterm = { version = "0.28", features = ["event-stream"] }
directories = "*"
futures = "0.3"
google-cloud-auth = "*"
google-cloud-gax = "*"
google-cloud-privilegedaccessmanager-v1 = "*"
google-cloud-resourcemanager-v3 = "*"
google-cloud-wkt = "*"
nucleo-matcher = "0.3"
ratatui = { version = "0.29", default-features = false, features = ["crossterm"] }
rusqlite = { version = "*", features = ["bundled"] }
serde = { version = "1", features = ["derive"] }
serde_json = "1"
tokio = { version = "1", features = ["rt-multi-thread", "macros", "sync", "time", "net", "io-util"] }
tracing = "0.1"
tracing-subscriber = { version = "0.3", features = ["env-filter"] }
