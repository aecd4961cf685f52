[package]
name = "lexer_boundary"
version = "0.1.0"
edition = "2021"
publish = false

[dependencies]
motoko = "=0.0.32"
serde = "=1.0.229"
serde_json = "=1.0.151"
lalrpop-util = { version = "=0.19.12", features = ["lexer"] }
wasm-bindgen = "=0.2.129"
serde-wasm-bindgen = "=0.6.5"
console_error_panic_hook = "=0.1.7"
