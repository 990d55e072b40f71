[package]
name = "nex_editor"
version = "0.1.0"
edition = "2021"
publish = false

[dependencies]
serde = { version = "1", features = ["derive"] }
serde_json = "1"
thiserror = "*"
loro = "*"
unicode-segmentation = "1"
clap = { version = "4", features = ["derive"] }
wasm-bindgen = "*"
fontdb = "*"
fontdue = "*"
tiny-skia = "*"
