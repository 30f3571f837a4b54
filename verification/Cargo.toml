[package]
name = "static_builder"
version = "0.1.0"
edition = "2021"
publish = false

[dependencies]
jotdown = "=0.10.0"
tera = "=1.20.1"
yaml-front-matter = "=0.1.0"
serde_yaml = "=0.8.26"
walkdir = "=2.5.0"
quote = "=1.0.47"
syn = { version = "=3.0.6", features = ["full"] }
prettyplease = "=0.3.0"
proc-macro2 = "=1.0.107"
