[package]
name = "contile"
version = "1.8.1"
edition = "2021"
publish = false

[dependencies]
serde = { version = "=1.0.229", features = ["derive"] }
serde_json = "=1.0.154"
url = "=2.5.8"
woothee = "=0.13.0"
regex = "=1.13.1"
blake3 = "=1.8.7"
base64 = "=0.23.1"
image = { version = "=0.25.10", default-features = false, features = ["jpeg", "png"] }
actix-web = { version = "=4.18.1", default-features = false, features = ["macros"] }
actix-web-location = { version = "=0.7.0", features = ["actix-web-v4", "maxmind", "cadence"] }
actix-cors = "=0.7.2"
async-trait = "=0.1.92"
reqwest = { version = "=0.12.28", default-features = false, features = ["json", "rustls-tls"] }
tokio = { version = "=1.54.1", features = ["macros", "rt", "time", "sync"] }
cadence = "=1.8.0"
dashmap = "=6.2.1"
config = { version = "=0.15.27", default-features = false, features = ["json", "toml"] }
docopt = "=1.1.1"
chrono = "=0.4.45"
slog = "=2.8.2"
slog-scope = "=4.4.1"
slog-term = "=2.9.2"
slog-async = "=2.8.0"
slog-mozlog-json = "=0.1.0"
sentry = { version = "=0.49.5", default-features = false, features = ["backtrace", "contexts", "panic"] }
google-cloud-storage = { version = "=0.24.0", default-features = false, features = ["rustls-tls", "auth"] }
cloud-storage = { version = "=0.11.1", default-features = false, features = ["rustls-tls"] }
redis = "=1.8.1"
scopeguard = "=1.2.0"
gethostname = "=1.1.0"
