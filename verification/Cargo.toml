[package]
name = "tachikoma_acl"
version = "0.1.0"
edition = "2021"
publish = false

[dependencies]
axum = { version = "0.8", default-features = false, features = ["http1", "json", "tokio"] }
axum-extra = { version = "0.10", default-features = false, features = ["cookie"] }
dialoguer = { version = "0.10", default-features = false, features = ["password"] }
include_dir = "0.7"
log = "0.4"
reqwest = { version = "0.12", default-features = false, features = ["json"] }
serde = { version = "1", features = ["derive"] }
thiserror = "1"
time = "0.3"
tokio = { version = "1", features = ["rt", "rt-multi-thread", "sync", "time"] }
url = "2"
uuid = { version = "1", features = ["v4"] }
