[package]
name = "saas"
version = "0.1.0"
edition = "2021"
publish = false

[dependencies]
matchit = "0.7"
percent-encoding = "2"
itoa = "1"
memchr = "2"
mime = "0.3"
serde = { version = "1", features = ["derive"] }
serde_json = "1"
serde_urlencoded = "0.7"
serde_path_to_error = "0.1"
http = "0.2"
bytes = "1"
tower-service = "0.3"
tower-layer = "0.3"
