[package]
name = "dlc_decrypter"
version = "0.1.0"
edition = "2021"
publish = false

[dependencies]
base64 = "0.9"
rust-crypto = "0.2.36"
reqwest = { version = "0.12", default-features = false, features = ["blocking"] }

[dev-dependencies]
regex = "1"
