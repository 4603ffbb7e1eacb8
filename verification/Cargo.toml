[package]
name = "pathtracer"
version = "0.1.0"
edition = "2021"
publish = false

[dependencies]
clap = { version = "4", features = ["derive"] }
image = { version = "0.24", default-features = false, features = ["png"] }
rand = "0.8"
rand_xorshift = "0.3"
sdl2 = "0.35"
threadpool = "1.8"
