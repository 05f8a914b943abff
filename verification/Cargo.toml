[package]
name = "rapi"
version = "0.1.0"
edition = "2021"
publish = false

[dependencies]
actix-http = "2"
actix-rt = "=1.1.1"
actix-web = "3"
actix-web-httpauth = "0.5"
azure_sdk_core = "=0.43.7"
azure_sdk_storage_blob = "=0.45.3"
azure_sdk_storage_core = "=0.44.4"
bytes = "=0.5.6"
dotenv = "=0.15.0"
env_logger = "=0.7.1"
envy = "=0.4.2"
futures = "=0.3.34"
jsonwebtoken = "=7.2.0"
lazy_static = "=1.5.1"
log = "=0.4.34"
prost = "=0.6.1"
reqwest = { version = "=0.10.10", features = ["json"] }
serde = { version = "=1.0.229", features = ["derive"] }
serde_json = "=1.0.154"
tmq = "=0.2.1"
tokio = { version = "=0.2.25", features = ["full"] }
uuid = { version = "=0.8.2", features = ["v4"] }
