[package]
name = "fsutil"
version = "0.1.0"
edition = "2021"
publish = false

[dependencies]
anyhow = "*"
dunce = "*"
glob = "*"
rayon = "*"
shlex = "*"
tempfile = "*"
walkdir = "*"
winsplit = "*"
zip = { version = "*", default-features = false, features = ["zstd"] }
