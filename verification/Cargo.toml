[package]
name = "datagov"
version = "0.1.0"
edition = "2021"
publish = false

[dependencies]
serde = { version = "=1.0.229", features = ["derive"] }
serde_json = "=1.0.154"
serde_yaml = "=0.9.34"
regex = "=1.13.1"
sha2 = "=0.10.9"
url = "=2.5.8"
thiserror = "=2.0.21"
clap = { version = "=4.6.7", features = ["derive"] }
comfy-table = "=8.0.1"
csv = "=1.4.0"
tokio = { version = "=1.54.1", features = ["rt"] }
time = { version = "=0.3.55", features = ["formatting"] }
uuid = { version = "=1.29.0", features = ["v7"] }
tracing-subscriber = { version = "=0.3.23", features = ["env-filter", "json"] }
schemars = "=1.2.3"
sqlglot-rust = "=0.11.1"
datafusion = { version = "=55.2.0", default-features = false, features = ["parquet"] }
parquet = { version = "=59.3.2", default-features = false }
bytes = "=1.12.1"

[dev-dependencies]
tempfile = "=3.27.0"
