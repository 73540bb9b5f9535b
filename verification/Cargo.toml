[package]
name = "bevy_htn"
version = "0.1.0"
edition = "2021"
publish = false

[dependencies]
rand = "0.9"
bevy = { version = "0.15", default-features = false, features = ["bevy_asset"] }
bevy_behave = "0.2"
futures-lite = "2"
thiserror = "2"
