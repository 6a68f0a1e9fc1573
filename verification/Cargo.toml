[package]
name = "reader_state"
version = "0.1.0"
edition = "2021"
publish = false

[dependencies]
pdfium-render = "*"
uuid = { version = "1", features = ["v4"] }
log = "0.4"
anyhow = "1"
