[package]
name = "booky"
version = "0.1.0"
edition = "2021"
publish = false

[dependencies]
chrono = "0.4"
futures = "0.3"
mongodb = "*"
serde = { version = "1", features = ["derive"] }
tokio = { version = "1", features = ["macros", "rt-multi-thread"] }
warp = "0.3"
