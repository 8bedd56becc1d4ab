[package]
name = "ironboy"
version = "0.1.0"
edition = "2021"
publish = false

[dependencies]
bincode = "1.3"
clap = { version = "4", features = ["derive"] }
console_error_panic_hook = "0.1"
instant = "0.1"
js-sys = "0.3"
rand = "0.8"
serde_json = "1"
wasm-bindgen = "0.2"
wasm-bindgen-futures = "0.4"
wasm-rs-async-executor = "0.9"
web-sys = { version = "0.3", features = ["Blob", "Document", "Element", "File", "FileList", "HtmlAnchorElement", "HtmlCanvasElement", "HtmlDivElement", "HtmlInputElement", "ReadableStream", "ReadableStreamDefaultReader", "Request", "RequestInit", "Response", "Url", "Window", "console"] }
winit = "0.28"
winit_input_helper = "0.14"
