[package]
name = "ypb"
version = "0.1.0"
edition = "2021"
publish = false

[dependencies]
crc = "*"
base64 = "*"
mime_guess = "*"
axum = "*"
axum-extra = { version = "*", features = ["typed-header"] }
tokio = { version = "*", features = ["full"] }
tokio-util = { version = "*", features = ["io"] }
tokio-stream = { version = "*", features = ["fs"] }
futures = "*"
tower-http = { version = "*", features = ["trace", "timeout"] }
tracing = "*"
tracing-subscriber = { version = "*", features = ["env-filter"] }
clap = { version = "*", features = ["derive"] }
anyhow = "*"
thiserror = "*"
