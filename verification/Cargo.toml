[package]
name = "scenable"
version = "0.1.0"
edition = "2021"
publish = false

[dependencies]
im-rc = "*"
rand = "*"
reactive-state = "*"
serde = { version = "*", features = ["derive"] }
ron = "*"
directories = "*"
eyre = "*"
color-eyre = "*"
tracing = "*"
tracing-subscriber = { version = "*", features = ["env-filter"] }
