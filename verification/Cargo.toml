[package]
name = "snowbreak_gacha_export"
version = "0.1.0"
edition = "2021"
publish = false

[dependencies]
base64 = "*"
chrono = "*"
image = "*"
imageproc = "*"
serde_json = "*"
serde = { version = "*", features = ["derive"] }
tokio = { version = "*", features = ["rt-multi-thread", "macros", "sync", "time"] }
rust_xlsxwriter = "*"
paddleocr = "*"
