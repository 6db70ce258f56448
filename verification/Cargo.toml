[package]
name = "roguelike"
version = "0.1.0"
edition = "2021"
publish = false

[dependencies]
rand = "0.3"
serde = { version = "1", features = ["derive"] }
serde_derive = "1"
serde_json = "1"
tcod = "0.15"
