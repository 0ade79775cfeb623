[package]
name = "httpie"
version = "0.1.0"
edition = "2021"
publish = false

[dependencies]
anyhow = "*"
clap = { version = "*", features = ["derive"] }
colored = "*"
mime = "*"
reqwest = { version = "*", default-features = false }
serde_urlencoded = "*"
syntect = { version = "*", default-features = false, features = ["default-fancy"] }
tokio = { version = "*", features = ["macros", "rt-multi-thread"] }
url = "*"
