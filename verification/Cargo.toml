[package]
name = "warp_router"
version = "1.0.0"
edition = "2021"
publish = false

[dependencies]
rust-argon2 = "0.8"
uuid = { version = "0.8", features = ["v4"] }
chrono = "0.4"
clap = "2.33"
futures-locks = "0.7"
futures-util = "0.3"
lazy_static = "1.4"
serde = { version = "1", features = ["derive"] }
serde_json = "1"
sysinfo = "0.20"
thiserror = "1"
tokio = { version = "1", features = ["full"] }
warp = { version = "0.3", features = ["tls"] }
