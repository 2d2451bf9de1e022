[package]
name = "cocomiro"
version = "0.1.0"
edition = "2021"
publish = false

[dependencies]
wasm-bindgen = "0.2"
wasm-bindgen-futures = "0.4"
js-sys = "0.3"
log = "0.4"
wasm-logger = "0.2"
serde = { version = "1", features = ["derive"] }
chrono = "0.4"
axum = "0.7"
tokio = { version = "1", features = ["macros", "rt-multi-thread", "net"] }
tower-http = { version = "0.5", features = ["cors"] }
yew = { version = "0.21", features = ["csr"] }
stylist = { version = "0.13", features = ["yew_integration"] }
web-sys = { version = "0.3", features = ["Window", "Document", "Element", "HtmlElement", "HtmlCanvasElement", "CanvasRenderingContext2d", "Node", "EventTarget", "Event", "MouseEvent", "KeyboardEvent", "WheelEvent", "CssStyleDeclaration", "console", "Performance", "TextMetrics", "Selection", "Range", "DocumentFragment", "Request", "RequestInit", "RequestMode", "Response", "DomRect"] }
