[package]
name = "swr"
version = "0.1.0"
edition = "2021"
publish = false

[dependencies]
tokio = { version = "1", features = ["sync", "rt", "time"] }
parking_lot = "0.12"
web-time = "1"
serde = { version = "1", features = ["derive"] }
ureq = { version = "3", default-features = false, features = ["json"] }
reqwest = { version = "0.12", default-features = false, features = ["json"] }
gloo-events = "0.2"
gloo-timers = { version = "0.3", features = ["futures"] }
wasm-bindgen-futures = "0.4"
web-sys = { version = "0.3", features = ["Window", "Document", "VisibilityState", "EventTarget"] }
