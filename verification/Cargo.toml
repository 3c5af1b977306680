[package]
name = "patch_releases"
version = "0.1.0"
edition = "2021"
publish = false

[dependencies]
anyhow = "=1.0.104"
chrono = { version = "=0.4.45", default-features = false, features = ["std", "now"] }
clap = { version = "=4.6.7", default-features = false, features = ["std", "derive", "env"] }
reqwest = { version = "=0.12.28", default-features = false, features = ["json", "rustls-tls"] }
semver = "=1.0.28"
serde = { version = "=1.0.229", features = ["derive"] }
tracing = "=0.1.44"
url = "=2.5.8"
wasmcloud-core = { version = "=0.9.0", default-features = false, features = ["reqwest", "rustls-native-certs"] }
wasmcloud-provider-sdk = { version = "=0.8.0", default-features = false }

[dev-dependencies]
serde_json = "=1.0.154"
