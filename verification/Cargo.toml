[package]
name = "dodge_the_creeps"
version = "0.1.0"
edition = "2021"
publish = false

[dependencies]
bevy_app = "0.5"
bevy_ecs = "0.5"
gdnative = "0.9"
rand = "0.8"
