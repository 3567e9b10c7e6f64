[package]
name = "desktop_backends"
version = "0.1.0"
edition = "2021"
publish = false

[dependencies]
anyhow = "=1.0.104"
base64 = "0.22"
chrono = "=0.4.45"
comrak = { version = "*", default-features = false }
env_logger = "*"
image = { version = "0.25", default-features = false, features = ["png", "jpeg"] }
log = "0.4"
printpdf = { version = "0.7", default-features = false }
pulldown-cmark = { version = "*", default-features = false, features = ["html"] }
r2d2 = "*"
r2d2_sqlite = { version = "*", features = ["bundled"] }
rusqlite = { version = "*", features = ["bundled"] }
serde = { version = "=1.0.229", features = ["derive"] }
serde_json = "=1.0.154"
uuid = { version = "=1.29.0", features = ["v4"] }
