[package]
name = "lmdb_qbsdiff"
version = "0.1.0"
edition = "2021"
publish = false

[dependencies]
heed = "0.8"
qbsdiff = "1"
tempfile = "3"
rustyline = "*"
main_error = "*"
