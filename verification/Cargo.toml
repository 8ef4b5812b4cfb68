[package]
name = "gearbot"
version = "0.1.0"
edition = "2021"
publish = false

[dependencies]
aes-gcm = "0.8"
rand = "0.7"
twilight-util = { version = "*", features = ["link"] }
twilight-model = "*"
serde = { version = "1", features = ["derive"] }
serde_json = "1"
toml = "*"
