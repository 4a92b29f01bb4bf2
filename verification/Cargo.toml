[package]
name = "vlru"
version = "0.1.0"
edition = "2021"
publish = false

[dev-dependencies]
scoped_threadpool = "0.1"
