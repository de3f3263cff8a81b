[package]
name = "firmware"
version = "0.1.0"
edition = "2021"
publish = false

[dependencies]
embedded-graphics = "=0.8.2"
esp-idf-svc = "*"
log = "=0.4.35"
mipidsi = "=0.10.0"
serde = { version = "=1.0.229", features = ["derive"] }
serde_json = "=1.0.154"
ssd1306 = "=0.10.0"
thiserror = "=2.0.21"
