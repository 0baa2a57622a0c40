[package]
name = "newsletter_outbox"
version = "0.1.0"
edition = "2021"
publish = false

[dependencies]
rand = "0.8"
unicode-segmentation = "1"
serde = { version = "1", features = ["derive"] }
secrecy = "0.8"
uuid = { version = "1", features = ["v4"] }
