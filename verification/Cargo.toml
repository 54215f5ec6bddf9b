[package]
name = "ww_manager"
version = "0.1.0"
edition = "2021"
publish = false

[dependencies]
md5 = "0.7"
url = "2"
serde = { version = "1", features = ["derive"] }
serde_json = "1"
reqwest = { version = "0.12", default-features = false, features = ["json", "stream", "rustls-tls"] }
tokio = { version = "1", features = ["rt-multi-thread", "macros", "sync", "time", "fs"] }
futures-util = "0.3"
log = "0.4"
walkdir = "2"
tauri = { version = "2", default-features = false }
