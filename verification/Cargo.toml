[package]
name = "calendar_transform"
version = "0.1.0"
edition = "2021"
publish = false

[dependencies]
base64 = "=0.13.1"
chrono = "=0.4.45"
icalendar = { version = "=0.15.8", features = ["parser"] }
worker = "=0.0.24"
# Not used directly: worker 0.0.24 (app/) only compiles against the
# wasm-bindgen generation it was released with, so these are pinned to it.
js-sys = "=0.3.68"
wasm-bindgen = "=0.2.91"
web-sys = "=0.3.68"
