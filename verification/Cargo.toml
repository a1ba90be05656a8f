[package]
name = "corona"
version = "0.1.0"
edition = "2021"
publish = false

[dependencies]
bcrypt = "*"
serde = { version = "*", features = ["derive"] }
toml = "*"
