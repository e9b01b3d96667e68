[package]
name = "falling_rust"
version = "0.1.0"
edition = "2021"
publish = false

[dependencies]
js-sys = "=0.3.106"
wasm-bindgen = "=0.2.129"
web-sys = { version = "=0.3.106", features = ["CanvasRenderingContext2d", "Document", "Element", "Event", "EventTarget", "HtmlCanvasElement", "HtmlElement", "MouseEvent", "Node", "Performance", "Touch", "TouchEvent", "TouchList", "UiEvent", "Window", "console"] }
