[package]
name = "sample_export"
version = "0.1.0"
edition = "2021"
publish = false

[dependencies]
base64 = "0.22"
uuid = { version = "1", features = ["v4"] }
time = { version = "0.3", features = ["formatting", "macros"] }
serde = { version = "1", features = ["derive"] }
serde_json = "1"
mysql_async = "*"
tokio = { version = "1", features = ["sync", "rt", "macros"] }
