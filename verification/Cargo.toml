[package]
name = "webgl_client"
version = "0.1.0"
edition = "2021"
publish = false

[dependencies]
wasm-bindgen = "0.2"
js-sys = "0.3"
web-sys = { version = "0.3", features = ["Window", "Document", "Element", "EventTarget", "Node", "HtmlCanvasElement", "MouseEvent", "WebGlRenderingContext", "WebGlBuffer", "WebGlProgram", "WebGlShader", "WebGlUniformLocation"] }
nalgebra-glm = "*"
console_error_panic_hook = "0.1"
