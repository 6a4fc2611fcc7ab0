[package]
name = "pdf_outline"
version = "0.1.0"
edition = "2021"
publish = false

[dependencies]
clap = { version = "*", features = ["derive"] }
lopdf = "*"
serde = { version = "*", features = ["derive"] }
serde_json = "*"
thiserror = "*"
