[package]
name = "rust_miner"
version = "0.1.0"
edition = "2021"
publish = false

[dependencies]
bevy = { version = "0.19", default-features = false, features = ["bevy_ui", "bevy_text", "bevy_sprite", "bevy_asset", "bevy_color", "bevy_window", "png"] }
hex = "0.4"
num-bigint = "0.4"
num_cpus = "1"
serde_json = "1"
sha2 = "0.10"
