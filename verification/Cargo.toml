[package]
name = "open_rts"
version = "0.1.0"
edition = "2021"
publish = false

[dependencies]
uuid = { version = "1", features = ["v4"] }
serde = { version = "1", features = ["derive"] }
postcard = { version = "1", features = ["alloc"] }
ron = "*"
