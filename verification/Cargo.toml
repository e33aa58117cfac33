[package]
name = "pm2_monitor"
version = "0.1.0"
edition = "2021"
publish = false

[dependencies]
serde = { version = "*", features = ["derive"] }
serde_json = "*"
uuid = { version = "*", features = ["v4"] }
tokio = { version = "*", features = ["sync", "rt", "rt-multi-thread", "macros", "time"] }
actix-web = "*"
actix-files = "*"
actix-ws = "*"
clap = { version = "*", features = ["derive"] }
ctrlc = "*"
