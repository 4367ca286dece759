[package]
name = "hashcrack"
version = "0.1.0"
edition = "2021"
publish = false

[dependencies]
clap = { version = "4", features = ["derive"] }
csv = "1"
md5 = "*"
sha1 = "*"
sha2 = "*"
