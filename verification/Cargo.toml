[package]
name = "openapi_gen"
version = "0.1.0"
edition = "2021"
publish = false

[dependencies]
voca_rs = "*"
serde = "*"
serde_derive = "*"
serde_json = "*"
serde_yaml = "*"
tera = "*"
