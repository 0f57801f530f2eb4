[package]
name = "sparql_eval"
version = "0.1.0"
edition = "2021"
publish = false

[dependencies]
chrono = "0.4"
language-tags = "0.2"
num-traits = "0.2"
ordered-float = "1"
regex = "1"
rust_decimal = "1"
uuid = { version = "0.8", features = ["v4"] }
