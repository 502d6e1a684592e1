[package]
name = "pedals"
version = "0.1.0"
edition = "2021"
publish = false

[dependencies]
anyhow = "1"
console_error_panic_hook = "0.1"
cpal = "0.13"
midir = "0.7"
num-traits = "0.2"
ringbuf = "0.2"
rustfft = "5"
serde = { version = "1", features = ["derive"] }
serde_yaml = "0.8"
wasm-bindgen = "0.2"
web-sys = { version = "0.3", features = ["console"] }
wmidi = "4"
