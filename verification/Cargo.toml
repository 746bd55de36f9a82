[package]
name = "rusty-llm"
version = "0.1.0"
edition = "2021"
publish = false

[dependencies]
base64 = "0.22"
console_error_panic_hook = "0.1"
futures = "0.3"
getrandom = { version = "0.2", features = ["js"] }
serde_json = "1"
worker = "0.8"

[dev-dependencies]
regex = "1"
