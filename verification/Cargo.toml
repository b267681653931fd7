[package]
name = "keyboard_monitor"
version = "0.1.0"
edition = "2021"
publish = false

[dependencies]
xkeysym = { version = "=0.2.1", features = ["serde"] }
serde = { version = "=1.0.229", features = ["derive"] }
zbus = "=5.19.0"
