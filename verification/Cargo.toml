[package]
name = "array_lang"
version = "0.1.0"
edition = "2021"
publish = false

[dependencies]
rustc_apfloat = "*"
pest = "*"
pest_derive = "*"
