[package]
name = "gaugen"
version = "0.1.0"
edition = "2021"
publish = false

[dependencies]
serde = { version = "=1.0.229", features = ["derive"] }
serde_json = "=1.0.154"
nalgebra = "=0.35.0"
nanovg = "=1.0.2"
glutin = "0.19"
gl = "=0.14.0"
gilrs = "=0.11.2"
