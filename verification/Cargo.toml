[package]
name = "imgserve"
version = "0.1.0"
edition = "2021"
publish = false

[dependencies]
image = { version = "*", default-features = false, features = ["png", "jpeg", "gif", "bmp", "ico", "tiff", "webp"] }
webp = "*"
fjall = "*"
percent-encoding = "*"
urlencoding = "*"
sanitize-filename = "*"
axum = "*"
tokio = { version = "*", features = ["rt-multi-thread", "macros", "net", "signal", "sync", "time"] }
reqwest = { version = "*", default-features = false }
serde = { version = "*", features = ["derive"] }
envconfig = "*"
httpdate = "*"
