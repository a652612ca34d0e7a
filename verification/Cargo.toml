[package]
name = "effort_timeline"
version = "0.1.0"
edition = "2021"
publish = false

[dependencies]
chrono = "0.4"
slint = { version = "1", default-features = false, features = ["std", "compat-1-2"] }
wasm-bindgen = "0.2"
