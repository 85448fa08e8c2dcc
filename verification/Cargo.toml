[package]
name = "openapi_patcher"
version = "0.1.0"
edition = "2021"
publish = false

[dependencies]
anyhow = "*"
serde_yaml = "*"
openapi-client-generator = "*"
openapiv3-extended = "=1.0.4"
