[package]
name = "sqlx-cloudflare"
version = "0.1.0"
edition = "2021"
publish = false

[dependencies]
sqlx-core = { version = "*", default-features = false }
futures-channel = "*"
futures-core = "*"
futures-util = "*"
js-sys = "*"
wasm-bindgen = "*"
log = "*"
worker = { version = "*", features = ["d1"] }
