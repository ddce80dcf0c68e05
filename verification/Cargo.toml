[package]
name = "folder_sync"
version = "0.1.0"
edition = "2021"
publish = false

[dependencies]
bytes = "1"
clap = { version = "4", features = ["derive"] }
color-eyre = "0.6"
futures = "0.3"
jwalk = "0.8"
md-5 = "0.10"
notify = "6"
quinn = "0.10"
rayon = "1"
rcgen = "0.11"
rustls = "0.21"
rustls-pemfile = "1"
sha3 = "0.10"
tokio = { version = "1", features = ["full"] }
tokio-util = { version = "0.7", features = ["codec"] }
tracing = "0.1"
tracing-subscriber = "0.3"
walkdir = "2"
