[package]
name = "distplot"
version = "0.1.0"
edition = "2021"
publish = false

[dependencies]
libm = "0.2"
plotters = "0.3"
plotters-canvas = "0.3"
wasm-bindgen = "0.2"
web-sys = { version = "0.3", features = ["HtmlCanvasElement", "HtmlInputElement", "Element", "Window"] }
yew = { version = "0.20", features = ["csr"] }
