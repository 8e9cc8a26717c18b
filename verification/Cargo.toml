[package]
name = "ant_colony"
version = "0.1.0"
edition = "2021"
publish = false

[dependencies]
kd-tree = "0.5"
rand = "0.8"
bevy = { version = "0.12", default-features = false }
bevy_rand = "0.4"
bevy_prng = { version = "0.2", features = ["wyrand"] }
bevy_spatial = "0.7"
