[package]
name = "rustris"
version = "0.1.0"
edition = "2021"
publish = false

[dependencies]
rand = "0.7"
pancurses = "0.17"
wasm-bindgen = "0.2"
console_error_panic_hook = "0.1"
