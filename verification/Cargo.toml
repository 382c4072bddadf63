[package]
name = "silos"
version = "0.1.4"
edition = "2021"
publish = false

[dependencies]
uuid = { version = "=1.29.0", features = ["v4", "v5"] }
argon2 = { version = "=0.5.3", features = ["std"] }
regex = "=1.13.1"
url = "=2.5.8"
base64 = "=0.22.1"
serde = { version = "=1.0.229", features = ["derive"] }
serde_json = "=1.0.154"
image = { version = "=0.25.10", default-features = false, features = ["png", "ico", "jpeg", "gif", "webp"] }
usvg = "=0.49.0"
resvg = "=0.49.0"
tiny-skia = "=0.12.0"
ico = "=0.3.0"
mslnk = "=0.1.8"
reqwest = { version = "=0.12.28", default-features = false, features = ["json", "rustls-tls"] }
