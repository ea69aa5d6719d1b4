[package]
name = "gushy"
version = "0.1.0"
edition = "2021"
publish = false

[dependencies]
rand = "0.8"
fontdue = "0.8"
tiny-skia = "0.11"
pixels = "0.13"
winit = "0.28"
tokio = { version = "1", features = ["rt-multi-thread"] }
