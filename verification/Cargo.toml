[package]
name = "termbridge"
version = "0.1.0"
edition = "2021"
publish = false

[dependencies]
workflow-terminal = "=0.19.0"
workflow-log = "=0.19.0"
workflow-core = "=0.19.0"
workflow-websocket = "=0.19.0"
tokio-tungstenite = "=0.20.1"
tokio = { version = "=1.54.1", features = ["macros", "rt-multi-thread", "net", "io-util", "time"] }
futures-util = { version = "=0.3.34", features = ["sink"] }
russh = "=0.38.0"
russh-keys = "=0.38.0"
anyhow = "=1.0.104"
async-trait = "=0.1.92"
log = "=0.4.35"
env_logger = "=0.11.11"
wasm-bindgen = "=0.2.126"
js-sys = "0.3"
web-sys = { version = "0.3", features = ["Window"] }
console_error_panic_hook = "=0.1.7"
