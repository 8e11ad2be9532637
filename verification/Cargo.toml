[package]
name = "abc_game_engine"
version = "0.1.0"
edition = "2021"
publish = false

[dependencies]
ABC-ECS = "0.2"
chrono = { version = "0.4", default-features = false, features = ["clock"] }
colored = "2"
crossterm = "0.27"
erased-serde = "0.4"
fxhash = "0.2"
glam = "0.25"
image = { version = "0.24", default-features = false, features = ["png"] }
rand = "0.8"
rapier2d = "0.22"
serde = { version = "1", features = ["derive"] }
serde_json = "1"
tracing = "0.1"
