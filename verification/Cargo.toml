[package]
name = "metatile_map"
version = "0.1.0"
edition = "2021"
publish = false

[dependencies]
agb = "0.20"
quote = "1"
tiled = { version = "*", default-features = false }
