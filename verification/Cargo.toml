[package]
name = "mochila"
version = "0.1.0"
edition = "2021"
publish = false

[dependencies]
leptos = { version = "*", features = ["csr"] }
wasm-bindgen = "*"
js-sys = "*"
console_log = "*"
log = "*"
console_error_panic_hook = "*"
