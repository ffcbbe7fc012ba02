[package]
name = "crossy_road"
version = "0.1.0"
edition = "2021"
publish = false

[dependencies]
oorandom = "=11.1.5"
bevy = { version = "=0.13.2", default-features = false }
bevy_rapier3d = { version = "0.25", default-features = false, features = ["dim3"] }
bevy_tweening = { version = "=0.10.0", default-features = false }
log = "=0.4.34"
env_logger = { version = "=0.11.11", default-features = false }
dotenv = "=0.15.0"
