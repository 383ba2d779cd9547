[package]
name = "rs_nonamerl_core"
version = "0.1.0"
edition = "2021"
publish = false

[dependencies]
morton-encoding = "2"
rand = "0.8"
noise = "0.8"
bevy_ecs = "0.11"
macroquad = "0.4"
serde = { version = "1", features = ["derive"] }
serde_json = "1"
