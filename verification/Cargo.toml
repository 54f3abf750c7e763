[package]
name = "webgame"
version = "0.1.0"
edition = "2021"
publish = false

[dependencies]
stdweb = "=0.4.20"
winit = "0.20"
