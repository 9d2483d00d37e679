[package]
name = "dicebot"
version = "0.1.0"
edition = "2021"
publish = false

[dependencies]
rand = "0.8"
ron = "0.8"
serde = { version = "1", features = ["derive"] }
strum = { version = "0.26", features = ["derive"] }
discord = { version = "0.8", default-features = false }
