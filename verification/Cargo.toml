[package]
name = "kagami"
version = "0.1.0"
edition = "2021"
publish = false

[dependencies]
anyhow = "1"
lalrpop-util = { version = "0.19", features = ["lexer"] }
memchr = "2"
