[package]
name = "globed_game_server"
version = "0.1.0"
edition = "2021"
publish = false

[dependencies]
bytebuffer = "*"
alloca = "*"
rand = "0.8"
criterion = "0.5"
