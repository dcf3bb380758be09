[package]
name = "cursor_anim"
version = "0.1.0"
edition = "2021"
publish = false

[dependencies]
skulpin = { version = "=0.5.2", default-features = false }
