[package]
name = "profile_graph"
version = "0.1.0"
edition = "2021"
publish = false

[dependencies]
regex = "1"
fs_extra = "1"

[dev-dependencies]
serde_json = "1"
