[package]
name = "openlogi"
version = "0.1.0"
edition = "2021"
publish = false

[dependencies]
sha2 = "0.10"
image = { version = "0.25", default-features = false }
serde = { version = "1", features = ["derive"] }
serde_json = "1"
anyhow = "1"
ureq = "3"
backon = "1"
tokio = { version = "1", features = ["sync"] }
directories = "6"
