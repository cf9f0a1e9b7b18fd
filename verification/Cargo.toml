[package]
name = "eddy"
version = "0.1.0"
edition = "2021"
publish = false

[dependencies]
xi-rope = "0.3"
serde = { version = "1", features = ["derive"] }
serde_json = "1"
flume = "0.10"
winit = "0.26"
glyph_brush = "0.7"
ab_glyph = "0.2"
puffin = "0.13"
puffin_http = "0.10"
xi-rpc = "0.3"
xi-core-lib = "0.3"
