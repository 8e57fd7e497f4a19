[package]
name = "rsoku"
version = "0.1.0"
edition = "2021"
publish = false

[dependencies]
url = "*"
crossterm = { version = "*", features = ["serde"] }
reqwest = { version = "*", default-features = false, features = ["blocking"] }
ron = "*"
serde = { version = "*", features = ["derive"] }
