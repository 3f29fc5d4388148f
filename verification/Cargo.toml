[package]
name = "svglite"
version = "0.1.0"
edition = "2021"
publish = false

[dependencies]
jpeg-decoder = "*"
png = "*"
usvg = "*"
usvg-text-layout = "*"
fontdb = "*"
ttf-parser = "*"
