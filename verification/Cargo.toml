[package]
name = "audio_player"
version = "0.1.0"
edition = "2021"
publish = false

[dependencies]
rand = "0.8"
rodio = "0.19"
bpaf = { version = "0.9", features = ["derive"] }
env_logger = "0.11"
log = "0.4"
