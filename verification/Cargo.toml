[package]
name = "lynx_runner"
version = "0.1.0"
edition = "2021"
publish = false

[dependencies]
actix-web = "4"
actix-cors = "*"
serde = { version = "1", features = ["derive"] }
