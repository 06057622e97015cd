[package]
name = "trainyard"
version = "0.1.0"
edition = "2021"
publish = false

[dependencies]
macroquad = { version = "0.3", features = ["audio"] }
serde = { version = "1", features = ["derive"] }
strum = "*"
strum_macros = "*"
