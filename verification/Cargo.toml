[package]
name = "spdf"
version = "0.2.0"
edition = "2021"
publish = false

[dependencies]
flate2 = "1"
infer = "*"
serde = { version = "1", features = ["derive"] }
serde_json = "1"
clap = { version = "4", features = ["derive"] }
anyhow = "1"
thiserror = "*"
pdfium-render = "*"
image = { version = "*", default-features = false, features = ["png"] }
rayon = "1"
tempfile = "3"
tracing = "0.1"
tracing-subscriber = { version = "0.3", features = ["env-filter", "fmt"] }
reqwest = { version = "*", default-features = false, features = ["multipart", "json"] }
tokio = { version = "1", features = ["rt"] }
libc = "0.2"
tesseract = "*"
