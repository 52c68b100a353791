[package]
name = "noctis"
version = "0.1.0"
edition = "2021"
publish = false

[dependencies]
lcms2 = "6"
serde = { version = "1", features = ["derive"] }
