[package]
name = "static_blog"
version = "0.1.0"
edition = "2021"
publish = false

[dependencies]
anyhow = "=1.0.104"
chrono = "=0.4.45"
lightningcss = "=1.0.0-alpha.72"
minify-html = "=0.15.0"
minify-js = "=0.6.0"
pulldown-cmark = "=0.13.5"
pulldown-cmark-escape = "=0.11.0"
rayon = "=1.12.0"
regex = "=1.13.1"
serde = { version = "=1.0.229", features = ["derive"] }
serde_json = "=1.0.154"
serde_yaml = "=0.9.34"
syntect = { version = "=5.3.0", default-features = false, features = ["default-fancy"] }
tera = "=1.20.1"
