[package]
name = "gdpatch"
version = "0.1.0"
edition = "2021"
publish = false

[dependencies]
unicode-xid = "0.2"
indexmap = "2"
ruzstd = "*"
byteorder = "1"
serde = { version = "1", features = ["derive"] }
zmij = "*"
