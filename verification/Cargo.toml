[package]
name = "dungeon_generator"
version = "0.1.0"
edition = "2021"
publish = false

[dependencies]
rand = "0.8"
rand_chacha = "0.3"
clap = { version = "3.2", features = ["derive"] }
libc = "0.2"
