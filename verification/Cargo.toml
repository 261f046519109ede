[package]
name = "turbocommit"
version = "0.1.0"
edition = "2021"
publish = false

[dependencies]
anyhow = "1"
colored = "2"
inquire = "0.7"
tokio = { version = "1", features = ["macros", "rt-multi-thread"] }
unicode-segmentation = "1"
unidiff = "0.3"
