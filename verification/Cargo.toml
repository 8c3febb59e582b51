[package]
name = "rover_control"
version = "0.1.0"
edition = "2021"
publish = false

[dependencies]
heapless = "0.8"
serde = { version = "1", default-features = false, features = ["derive"] }
postcard = "1"
embedded-hal = "1"
embedded-hal-async = "1"
embassy-time = "*"
embassy-sync = "*"
embedded-graphics = "0.8"
ssd1306 = { version = "*", features = ["async"] }
embedded-nrf24l01-async = "*"
