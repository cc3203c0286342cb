[package]
name = "webelements"
version = "0.1.0"
edition = "2021"
publish = false

[dependencies]
html_parser = "=0.7.0"
proc-macro2 = { version = "=1.0.107", features = ["span-locations"] }
quote = "=1.0.47"
syn = { version = "=3.0.6", features = ["full"] }
wasm-bindgen = "=0.2.129"
js-sys = "=0.3.106"
web-sys = { version = "=0.3.106", features = ["Window", "Document", "Element", "Node", "HtmlElement", "HtmlSpanElement", "HtmlInputElement", "HtmlButtonElement", "CssStyleDeclaration", "KeyboardEvent", "MouseEvent", "MessageEvent", "InputEvent", "Worker", "DedicatedWorkerGlobalScope", "console", "Navigator", "EventTarget"] }
