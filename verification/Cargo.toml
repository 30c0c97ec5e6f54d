[package]
name = "elasticpoll"
version = "0.1.0"
edition = "2021"
publish = false

[dependencies]
base64ct = { version = "=1.8.3", features = ["alloc"] }
elastic-elgamal = { version = "=0.3.1", features = ["serde"] }
js-sys = "=0.3.106"
merlin = "=3.0.0"
rand_core = { version = "=0.6.4", features = ["getrandom"] }
secret-tree = "=0.5.0"
serde = { version = "=1.0.229", features = ["derive"] }
serde_json = "=1.0.154"
serde-wasm-bindgen = "=0.6.5"
sha2 = "=0.10.9"
wasm-bindgen = "=0.2.129"
wasm-bindgen-futures = "=0.4.79"
web-sys = { version = "=0.3.106", features = ["Element", "Storage", "Window"] }
