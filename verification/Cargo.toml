[package]
name = "cta_monitor"
version = "0.1.0"
edition = "2021"
publish = false

[dependencies]
confy = "*"
convert_case = "0.6"
csv = "1"
log = "0.4"
mysql = "*"
reqwest = "*"
serde = { version = "1", features = ["derive"] }
tempfile = "3"
tokio = { version = "1", features = ["macros", "rt-multi-thread"] }
zip-extract = "*"
