[package]
name = "term_grid"
version = "0.1.0"
edition = "2021"
publish = false

[dependencies]
textwrap = { version = "0.16", default-features = false, features = ["unicode-width"] }
