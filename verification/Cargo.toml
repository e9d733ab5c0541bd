[package]
name = "substore"
version = "0.1.0"
edition = "2021"
publish = false

[dependencies]
jmt = { version = "*", features = ["ics23", "mocks"] }
sha2 = "=0.10.9"
borsh = "*"
ics23 = "*"
anyhow = "*"
rocksdb = "*"
tokio = { version = "*", features = ["rt"] }
