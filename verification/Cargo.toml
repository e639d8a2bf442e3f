[package]
name = "big_enum_set_derive"
version = "0.1.0"
edition = "2021"
publish = false

[dependencies]
darling = "0.9"
proc-macro2 = "0.4"
quote = "0.6"
syn = "0.15"
