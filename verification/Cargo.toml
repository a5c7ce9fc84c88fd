[package]
name = "projektil_control"
version = "1.0.22"
edition = "2021"
publish = false

[dependencies]
base64 = "0.22"
chrono = "0.4"
flate2 = "1"
futures-util = "0.3"
md5 = "0.7"
reqwest = { version = "0.12", default-features = false, features = ["blocking", "json", "rustls-tls"] }
serde = { version = "1", features = ["derive"] }
serde_json = "1"
tiny_http = "0.12"
tokio = { version = "1", features = ["rt", "time", "net"] }
tokio-tungstenite = "0.21"
windows-sys = { version = "0.59", features = ["Win32_System_Console"] }
