[package]
name = "mokapot"
version = "0.1.0"
edition = "2021"
publish = false

[dependencies]
thiserror = "2"
walkdir = "2"
zip = { version = "2", default-features = false, features = ["deflate"] }
