[package]
name = "free2pee"
version = "0.1.0"
edition = "2021"
publish = false

[dependencies]
itertools = "=0.11.0"
serde = { version = "=1.0.229", features = ["derive"] }
serde_derive = "=1.0.229"
serde_json = "=1.0.154"
serde-wasm-bindgen = "=0.5.0"
thiserror = "=1.0.69"
futures = "=0.3.34"
log = "=0.4.35"
console_log = "=1.1.0"
console_error_panic_hook = "=0.1.7"
leptos = { version = "=0.4.10", features = ["csr"] }
reqwasm = "=0.5.0"
wasm-bindgen = "0.2.100"
js-sys = "0.3"
web-sys = { version = "0.3", features = ["Window", "Navigator", "Geolocation", "Position", "PositionError", "Coordinates", "Location", "UrlSearchParams", "console"] }
