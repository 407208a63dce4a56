[package]
name = "comparable"
version = "0.1.0"
edition = "2021"
publish = false

[dependencies]
convert_case = "*"
pretty_assertions = "*"
proc-macro2 = "*"
quote = "*"
syn = { version = "*", features = ["full", "extra-traits"] }
