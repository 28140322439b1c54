[package]
name = "snake_arena"
version = "0.1.0"
edition = "2021"
publish = false

[dependencies]
url = "*"
skillratings = "*"
rand = "*"
serde = { version = "*", features = ["derive"] }
serde_json = "*"
reqwest = { version = "*", features = ["json"] }
tokio = { version = "*", features = ["rt", "macros", "time"] }
futures = "*"
uuid = { version = "*", features = ["v4"] }
