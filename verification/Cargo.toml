[package]
name = "moonbuild_rupes_recta"
version = "0.1.0"
edition = "2021"
publish = false

[dependencies]
shlex = "1"
relative-path = "*"
aho-corasick = "1"
serde = { version = "1", features = ["derive"] }
