[package]
name = "iceman"
version = "0.1.0"
edition = "2021"
publish = false

[dependencies]
anyhow = "=1.0.104"
chrono = "=0.4.45"
clap = { version = "=4.6.7", features = ["derive", "env"] }
dirs = "=6.0.0"
futures = "=0.3.34"
glob = "=0.3.4"
iceberg = "=0.10.1"
iceberg-catalog-rest = "=0.10.1"
serde = { version = "=1.0.229", features = ["derive"] }
serde_json = "=1.0.154"
serde_yaml = "=0.9.34"
sigpipe = "=0.1.3"
tempfile = "=3.27.0"
thiserror = "=2.0.21"
tokio = { version = "=1.54.1", features = ["macros", "rt-multi-thread"] }
toml = "=0.9.8"
