[package]
name = "key_x"
version = "0.1.0"
edition = "2021"
publish = false

[dependencies]
aes-gcm-siv = "=0.11.1"
argon2 = "=0.4.1"
base64 = "=0.13.1"
hex = "=0.4.3"
rand = "=0.8.8"
console_error_panic_hook = "=0.1.7"
js-sys = "=0.3.106"
wasm-bindgen = "=0.2.129"
wasm-bindgen-futures = "=0.4.79"
web-sys = { version = "=0.3.106", features = ["console", "Headers", "Request", "RequestInit", "RequestCredentials", "RequestMode", "Response", "Window"] }
