[package]
name = "kv_server"
version = "0.1.0"
edition = "2021"
publish = false

[dependencies]
dashmap = "5"
http = "0.2"
sled = "0.34"
tracing = "0.1"

[dev-dependencies]
tempfile = "3"
