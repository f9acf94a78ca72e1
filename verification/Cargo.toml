[package]
name = "wallpapy"
version = "0.1.0"
edition = "2021"
publish = false

[dependencies]
anyhow = "=1.0.104"
argon2 = { version = "=0.5.3", features = ["std"] }
axum = "=0.8.9"
base64 = "=0.22.1"
bincode = { version = "=2.0.1", features = ["serde"] }
chrono = { version = "=0.4.45", features = ["serde"] }
dotenvy = "=0.15.7"
ehttp = "=0.5.0"
image = { version = "=0.25.10", default-features = false, features = ["avif", "png", "jpeg", "webp"] }
log = "=0.4.35"
mime_guess = "=2.0.5"
postcard = { version = "=1.1.3", features = ["alloc"] }
rand = "=0.9.5"
reqwest = { version = "=0.12.28", default-features = false, features = ["json"] }
ron = "=0.8.1"
schemars = "=1.2.3"
serde = { version = "=1.0.229", features = ["derive"] }
serde_json = "=1.0.154"
sqlx = { version = "=0.8.6", default-features = false, features = ["sqlite", "runtime-tokio", "chrono", "uuid", "macros", "migrate"] }
thumbhash = "=0.1.0"
tokio = { version = "=1.54.1", features = ["full"] }
tower-http = { version = "=0.6.11", features = ["fs", "compression-gzip"] }
tracing = "=0.1.44"
uuid = { version = "=1.29.0", features = ["v4", "serde"] }
webp = "=0.3.1"
