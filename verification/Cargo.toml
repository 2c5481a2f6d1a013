[package]
name = "anyhow_http"
version = "0.1.0"
edition = "2021"
publish = false

[dependencies]
anyhow = "=1.0.104"
axum = { version = "=0.8.9", default-features = false }
bytes = "=1.12.1"
http = "=1.5.0"
mime = "=0.3.17"
proc-macro2 = { version = "=1.0.107", features = ["span-locations"] }
quote = "=1.0.47"
serde = "=1.0.229"
serde_json = "=1.0.151"
syn = { version = "=3.0.6", features = ["full"] }
