[package]
name = "magic_pack"
version = "0.1.0"
edition = "2021"
publish = false

[dependencies]
bzip2 = { version = "*", default-features = false, features = ["libbz2-rs-sys"] }
clap = { version = "*", features = ["derive"] }
flate2 = "*"
tar = { version = "*", default-features = false }
walkdir = "*"
zip = { version = "*", default-features = false }
