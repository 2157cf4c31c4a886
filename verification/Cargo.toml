[package]
name = "fission-web"
version = "0.1.0"
edition = "2021"
publish = false

[dependencies]
dioxus = { version = "0.7", features = ["web"] }
dioxus-logger = "0.7"
tracing = "0.1"
wasm-bindgen = "0.2"
wasm-bindgen-futures = "0.4"
js-sys = "0.3"
gloo-timers = { version = "0.3", features = ["futures"] }
web-sys = { version = "0.3", features = ["Blob", "DataTransfer", "DragEvent", "Event", "EventTarget", "File", "FileList", "FileReader", "HtmlInputElement", "ProgressEvent"] }
