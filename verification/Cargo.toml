[package]
name = "junkyard_vfs"
version = "0.1.0"
edition = "2021"
publish = false

[dependencies]
anyhow = "1"
cursive = "*"
cursive_table_view = "*"
regex = "1"
sha256 = { version = "1", default-features = false }
wasmtime = "27"
wasmtime-wasi = "27"
