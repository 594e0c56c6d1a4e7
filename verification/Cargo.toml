[package]
name = "magic_nix_cache"
version = "0.1.0"
edition = "2021"
publish = false

[dependencies]
sha2 = "*"
hex = "*"
rand = "0.8"
serde_json = "*"
unicode-bom = "*"
serde = { version = "*", features = ["derive"] }
tokio = { version = "*", features = ["full"] }
axum = "*"
reqwest = { version = "*", default-features = false, features = ["json"] }
futures = "*"
tokio-util = { version = "*", features = ["io", "compat"] }
async-compression = { version = "*", features = ["tokio", "zstd"] }
clap = { version = "*", features = ["derive"] }
hyper = { version = "*", features = ["client", "http2"] }
hyper-util = { version = "*", features = ["tokio"] }
http = "*"
http-body-util = "*"
tracing = "*"
tracing-subscriber = { version = "*", features = ["env-filter"] }
thiserror = "*"
anyhow = "*"
netrc-rs = "*"
bytes = "*"
tempfile = "*"
xdg = "*"
url = "*"
