[package]
name = "crytter"
version = "0.1.0"
edition = "2021"
publish = false

[dependencies]
vte = "=0.15.0"
unicode-width = "*"
wasm-bindgen = "=0.2.130"
js-sys = "=0.3.107"
web-sys = { version = "=0.3.107", features = ["CanvasRenderingContext2d", "HtmlCanvasElement", "HtmlElement", "Element", "Document", "Window", "KeyboardEvent", "CssStyleDeclaration", "TextMetrics", "Node", "EventTarget"] }
