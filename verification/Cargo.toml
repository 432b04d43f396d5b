[package]
name = "task_tracker"
version = "0.1.0"
edition = "2021"
publish = false

[dependencies]
clap = { version = "=4.6.7", features = ["derive"] }
dotenv = "=0.15.0"
mongodb = { version = "=2.8.2", default-features = false, features = ["sync"] }
serde = { version = "=1.0.229", features = ["derive"] }
