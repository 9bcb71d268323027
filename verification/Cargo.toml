[package]
name = "ptouch_core"
version = "0.1.0"
edition = "2021"
publish = false

[dependencies]
log = "0.4"
rusb = "0.9"
egui = { version = "0.31", default-features = false }
objc2 = "0.6"
objc2-foundation = "0.3"
objc2-io-bluetooth = "0.3"
