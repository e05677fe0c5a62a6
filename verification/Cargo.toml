[package]
name = "country_summary"
version = "0.1.0"
edition = "2021"
publish = false

[dependencies]
serde_json = "*"
rand = "*"
chrono = "*"
reqwest = { version = "*", default-features = false, features = ["blocking", "json"] }
image = "*"
imageproc = "*"
ab_glyph = "*"
