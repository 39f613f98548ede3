[package]
name = "secretfop"
version = "0.1.0"
edition = "2021"
publish = false

[dependencies]
clap = { version = "*", features = ["derive"] }
futures = "*"
reqwest = { version = "=0.13.5", default-features = false, features = ["query"] }
serde = { version = "*", features = ["derive"] }
serde_json = "*"
serde_yaml = "*"
tokio = { version = "*", features = ["macros", "rt-multi-thread", "time"] }
