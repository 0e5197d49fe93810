[package]
name = "wish_tree"
version = "0.1.0"
edition = "2021"
publish = false

[dependencies]
globset = "0.4"
walkdir = "2"
flate2 = "1"
tar = { version = "0.4", default-features = false }
zip = { version = "0.6", default-features = false, features = ["deflate"] }
