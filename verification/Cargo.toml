[package]
name = "point_scan"
version = "0.1.0"
edition = "2021"
publish = false

[dependencies]
photon-rs = "*"
serde = { version = "*", features = ["derive"] }
wasm-bindgen = { version = "*", features = ["serde-serialize"] }
web-sys = { version = "*", features = ["ImageData"] }
