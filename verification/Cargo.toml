[package]
name = "duck_husky_wedding"
version = "0.1.0"
edition = "2021"
publish = false

[dependencies]
glm = "=0.3.0"
moho = "=0.0.9"
sdl2 = { version = "=0.29.1", default-features = false, features = ["image", "ttf"] }
error-chain = "=0.12.4"
serde = "=1.0.229"
serde_derive = "=1.0.229"
serde_yaml = "=0.9.34"
