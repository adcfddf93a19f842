[package]
name = "browser"
version = "0.1.0"
edition = "2021"
publish = false

[dependencies]
anyhow = "1"
fltk = "1"
rustls = "0.20"
webpki-roots = "0.22"
