[package]
name = "mdbook-image-size"
version = "0.1.0"
edition = "2021"
publish = false

[dependencies]
mdbook = { version = "0.4", default-features = false }
pulldown-cmark = { version = "0.9", default-features = false }
regex = "1"
