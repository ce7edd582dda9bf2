[package]
name = "cleo"
version = "0.1.0"
edition = "2021"
publish = false

[dependencies]
byteorder = "1"
regex = "1"
unic-langid = "0.9"
itertools = "0.10"
serde = { version = "1", features = ["derive"] }
serde_json = "1"
bincode = "1"
case_insensitive_hashmap = "1"
walkdir = "2"
reqwest = { version = "0.11", default-features = false, features = ["blocking"] }
