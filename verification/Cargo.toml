[package]
name = "oicana_rules"
version = "0.1.0"
edition = "2021"
publish = false

[dependencies]
bevy = { version = "=0.5.0", default-features = false }
bevy_ecs = "=0.5.0"
bevy_prototype_lyon = "=0.3.1"
rand = "=0.8.8"
spirv-std-macros = "=0.4.0"
