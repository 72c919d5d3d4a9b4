[package]
name = "rustcast"
version = "0.1.0"
edition = "2021"
publish = false

[dependencies]
rayon = "1"
iced = { version = "0.14", default-features = false, features = ["tokio", "x11"] }
tokio = { version = "1", features = ["io-util", "macros", "process", "rt", "sync", "time"] }
log = "0.4"
arboard = "3"
objc2 = "0.6"
objc2-app-kit = "0.3"
tray-icon = "*"
