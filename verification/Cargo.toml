[package]
name = "xilem_core"
version = "0.1.0"
edition = "2021"
publish = false

[dependencies]
masonry = { version = "=0.3.0", default-features = false }
tracing = { version = "0.1", default-features = false }
