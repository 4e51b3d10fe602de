[package]
name = "invomodo"
version = "0.1.0"
edition = "2021"
publish = false

[dependencies]
regex = "1"
base64 = "0.22"
uuid = { version = "1", features = ["v4"] }
serde = { version = "1", features = ["derive"] }
serde_json = "1"
thiserror = "2"
log = "0.4"
time = "0.3"
leptos = { version = "0.8", features = ["csr"] }
leptos_meta = "0.8"
leptos_router = "0.8"
leptos-use = "0.16"
phosphor-leptos = "*"
wasm-bindgen = "0.2"
wasm-bindgen-futures = "0.4"
js-sys = "0.3"
web-sys = { version = "0.3", features = ["Window", "Storage", "MediaQueryList", "MediaQueryListEvent", "EventTarget", "Event", "KeyboardEvent", "SubmitEvent", "Location", "console"] }
console_error_panic_hook = "0.1"
wasm-logger = "0.2"
