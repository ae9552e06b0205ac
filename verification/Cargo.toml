[package]
name = "nectar"
version = "0.1.0"
edition = "2021"
publish = false

[dependencies]
rand = "=0.8.8"
rand_chacha = "=0.3.1"
xxhash-rust = { version = "=0.8.19", features = ["xxh64"] }
chrono = { version = "=0.4.45", default-features = false, features = ["std"] }
clap = { version = "=4.6.7", features = ["derive"] }
csv = "=1.4.0"
serde = { version = "=1.0.229", features = ["derive"] }
serde_json = "=1.0.154"
serde_yaml = "=0.9.34"
thiserror = "=1.0.69"
tokio = { version = "=1.54.1", features = ["rt-multi-thread", "macros", "sync", "time", "signal"] }
reqwest = { version = "=0.12.28", default-features = false, features = ["json", "rustls-tls"] }
opentelemetry-proto = { version = "*", default-features = false, features = ["gen-tonic-messages", "trace"] }
prost = "*"
