[package]
name = "bot_core"
version = "0.1.0"
edition = "2021"
publish = false

[dependencies]
rand = "0.8"
serde = { version = "1", features = ["derive"] }
ron = "0.8"
strum = "0.26"
strum_macros = "0.26"
