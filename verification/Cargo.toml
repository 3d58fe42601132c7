[package]
name = "rivet"
version = "0.1.0"
edition = "2021"
publish = false

[dependencies]
anyhow = "=1.0.104"
atty = "=0.2.14"
chrono = { version = "=0.4.45", features = ["serde"] }
clap = { version = "=4.6.7", features = ["derive"] }
clap_complete = "=4.6.11"
clap_mangen = "=0.2.33"
csv = "=1.4.0"
futures = "=0.3.34"
indicatif = "=0.17.11"
jsonpath-rust = "=0.3.5"
openapiv3 = "=2.2.0"
owo-colors = "=4.4.0"
prost = "=0.13.5"
prost-types = "=0.13.5"
regex = "=1.13.1"
reqwest = { version = "=0.12.28", default-features = false, features = ["rustls-tls"] }
serde = { version = "=1.0.229", features = ["derive"] }
serde_json = "=1.0.154"
serde_yaml = "=0.9.34"
tempfile = "=3.27.0"
tera = "=1.20.1"
tokio = { version = "=1.54.1", features = ["full"] }
tonic = "=0.12.3"
url = "=2.5.8"
walkdir = "=2.5.0"
