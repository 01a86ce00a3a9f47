[package]
name = "txkv"
version = "0.1.0"
edition = "2021"
publish = false

[dependencies]
rand = "=0.8.8"
async-std = { version = "=1.13.2", features = ["unstable"] }
async-trait = "=0.1.92"
futures = "=0.3.34"
log = "=0.4.34"
wasm-bindgen = "0.2"
js-sys = "0.3"
wasm-bindgen-futures = "0.4"
web-sys = { version = "0.3", features = ["Window", "Event", "Crypto", "DomException", "IdbFactory", "IdbOpenDbRequest", "IdbRequest", "IdbDatabase", "IdbObjectStore", "IdbTransaction", "IdbTransactionMode", "IdbVersionChangeEvent"] }

[dev-dependencies]
regex = "=1.13.1"
