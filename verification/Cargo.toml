[package]
name = "texture_crossfade"
version = "0.1.0"
edition = "2021"
publish = false

[dependencies]
wasm-bindgen = "0.2"
console_error_panic_hook = "0.1"
palette = "0.6"
kmeans_colors = { version = "0.5", default-features = false, features = ["palette_color"] }
