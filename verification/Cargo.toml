[package]
name = "mgx"
version = "0.1.0"
edition = "2021"
publish = false

[dependencies]
anyhow = "1"
boyer-moore-magiclen = "0.2"
chksum-hash-md5 = "*"
clap = { version = "4", features = ["derive"] }
encoding_rs = "0.8"
flate2 = "1"
image = { version = "0.25", default-features = false, features = ["png"] }
imageproc = { version = "0.25", default-features = false }
phf = { version = "0.11", features = ["macros"] }
serde = { version = "1", features = ["derive"] }
serde_json = "1"
