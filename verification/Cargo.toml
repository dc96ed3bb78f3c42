[package]
name = "pterodactil"
version = "0.1.0"
edition = "2021"
publish = false

[dependencies]
daicon = "=0.8.0"
bytemuck = "=1.25.2"
uuid = { version = "=1.29.0", features = ["v4"] }
anyhow = "=1.0.104"
crossbeam-queue = "=0.3.14"
thiserror = "=2.0.21"
tracing = "=0.1.44"
tracing-subscriber = { version = "=0.3.23", features = ["env-filter"] }
clap = { version = "=4.6.7", features = ["derive"] }
