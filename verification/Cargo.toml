[package]
name = "payment_gateway"
version = "0.1.0"
edition = "2021"
publish = false

[dependencies]
crossbeam-queue = "0.3"
chrono = { version = "0.4", features = ["serde"] }
serde = { version = "1", features = ["derive"] }
serde_json = "1"
bytes = "1"
tokio = { version = "1", features = ["rt-multi-thread", "macros", "net", "io-util", "time", "sync"] }
reqwest = { version = "0.12", default-features = false, features = ["json"] }
async-channel = "2"
uuid = { version = "1", features = ["serde"] }
actix-web = { version = "4", default-features = false, features = ["macros"] }
