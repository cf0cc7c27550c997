[package]
name = "openapi_mcp"
version = "0.1.0"
edition = "2021"
publish = false

[dependencies]
urlencoding = "*"
base64 = "*"
mime_guess = "*"
uuid = { version = "*", features = ["v4"] }
dirs = "*"
serde = { version = "*", features = ["derive"] }
serde_json = "*"
openapiv3 = "*"
reqwest = { version = "*", default-features = false, features = ["json", "multipart"] }
tokio = { version = "*", features = ["full"] }
anyhow = "*"
