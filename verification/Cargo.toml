[package]
name = "oort_simulator"
version = "0.1.0"
edition = "2021"
publish = false

[dependencies]
chrono = { version = "0.4", features = ["serde"] }
crossbeam = "0.8"
flate2 = "1"
idb = "0.4"
js-sys = "0.3"
log = "0.4"
nalgebra = "0.31"
rapier2d-f64 = "0.13"
serde = { version = "1", features = ["derive"] }
serde-wasm-bindgen = "0.4"
serde_json = "1"
sha2 = "0.10"
wasm-bindgen = "0.2"
web-sys = { version = "0.3", features = ["WebGl2RenderingContext", "WebGlBuffer", "WebGlProgram", "WebGlShader", "WebGlUniformLocation"] }
