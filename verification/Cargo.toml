[package]
name = "lacon"
version = "0.1.0"
edition = "2021"
publish = false

[dependencies]
ariadne = "0.4"
thiserror = "1"

[dev-dependencies]
logos = "0.14"
chumsky = "0.9"
smol_str = "0.2"
