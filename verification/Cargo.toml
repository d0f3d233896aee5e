[package]
name = "epic_manifest_parser"
version = "0.1.0"
edition = "2021"
publish = false

[dependencies]
base64 = "0.13"
byteorder = "1"
bytes = "1"
dotenv = "0.15"
hex = "0.4"
http = "0.2"
hyper = { version = "0.14", features = ["full"] }
hyper-tls = "0.5"
lazy_static = "1"
log = "0.4"
miniz_oxide = "*"
serde = { version = "1", features = ["derive"] }
serde_json = "1"
serde_urlencoded = "0.7"
simple_logger = "*"
string-builder = "0.2"
tokio = { version = "1", features = ["full"] }
