[package]
name = "fractals"
version = "0.1.0"
edition = "2021"
publish = false

[dependencies]
seed = "0.9"
serde = { version = "1", features = ["derive"] }
web-sys = { version = "0.3", features = ["CanvasRenderingContext2d", "Document", "DomRect", "Element", "HtmlCanvasElement", "HtmlInputElement", "HtmlSelectElement", "ImageData", "MouseEvent", "Performance", "Window"] }
