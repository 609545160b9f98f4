[package]
name = "digi4school"
version = "0.1.0"
edition = "2021"
publish = false

[dependencies]
base64 = "*"
svg2pdf = "*"
reqwest = { version = "*", default-features = false }
tokio = { version = "*", features = ["rt", "macros"] }
async-trait = "*"
