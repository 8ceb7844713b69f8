[package]
name = "onenote_parser"
version = "0.1.0"
edition = "2021"
publish = false

[dependencies]
bytes = "1"
uuid = "1"
sanitize-filename = "*"
typed-path = "*"
