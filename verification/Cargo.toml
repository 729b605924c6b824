[package]
name = "ferrotunnel"
version = "1.0.0"
edition = "2021"
publish = false

[dependencies]
bincode-next = { version = "*", features = ["serde"] }
sha2 = "0.10"
subtle = "2"
governor = "*"
dashmap = "6"
uuid = { version = "1", features = ["v4", "serde"] }
libc = "0.2"
bytes = { version = "1", features = ["serde"] }
serde = { version = "1", features = ["derive"] }
serde_json = "1"
tokio = { version = "1", features = ["full"] }
tokio-util = { version = "0.7", features = ["codec"] }
tokio-rustls = { version = "0.26", default-features = false, features = ["ring", "tls12"] }
rustls = { version = "0.23", default-features = false, features = ["ring", "std", "tls12"] }
quinn = { version = "0.11", default-features = false, features = ["runtime-tokio", "rustls-ring"] }
hyper = { version = "1", features = ["full"] }
hyper-util = { version = "0.1", features = ["full"] }
http = "1"
http-body-util = "0.1"
h3 = "*"
h3-quinn = "*"
axum = "*"
reqwest = { version = "*", default-features = false }
prometheus = { version = "*", default-features = false }
clap = { version = "4", features = ["derive", "env"] }
tracing = "0.1"
tracing-subscriber = { version = "0.3", features = ["env-filter"] }
rand = "*"
kanal = "*"
rpassword = "*"
