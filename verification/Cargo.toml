[package]
name = "cc-switch"
version = "0.1.0"
edition = "2021"
publish = false

[dependencies]
auto-launch = "0.5"
log = "0.4"
reqwest = { version = "0.12", default-features = false, features = ["json", "rustls-tls"] }
rusqlite = { version = "0.31", features = ["bundled"] }
rust_decimal = "1"
serde_json = "1"
sha2 = "0.10"
url = "2"
winreg = "0.52"
