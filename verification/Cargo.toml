[package]
name = "spirit_battle"
version = "0.1.0"
edition = "2021"
publish = false

[dependencies]
rand = "0.5"
specs = "0.12"
ggez = "0.5"
