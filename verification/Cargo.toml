[package]
name = "oxidact"
version = "0.1.0"
edition = "2021"
publish = false

[dependencies]
pollster = "=0.3.0"
syn = { version = "=3.0.9", features = ["full"] }
unicode-ident = "=1.0.27"
wasm-bindgen = "=0.2.130"
wasm-bindgen-futures = "=0.4.80"
web-sys = { version = "=0.3.107", features = ["Window", "Document", "Element", "HtmlElement", "HtmlInputElement", "HtmlCanvasElement", "Event", "EventTarget", "Location", "History", "Node", "console"] }
