[package]
name = "pagesmith"
version = "0.1.0"
edition = "2021"
publish = false

[dependencies]
axum = "0.6"
flate2 = "1"
lol_html = "1"
maud = "0.25"
pulldown-cmark = "0.9"
regex = "1"
syntect = { version = "5", default-features = false, features = ["default-fancy"] }
tokio = { version = "1", features = ["full"] }
tracing = "0.1"
tracing-subscriber = "0.3"
