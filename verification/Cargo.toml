[package]
name = "mince_raft"
version = "0.1.0"
edition = "2021"
publish = false

[dependencies]
quartz_nbt = "0.2"
Inflector = "0.11"
miniz_oxide = "0.7"
serde_json = "1"

[dev-dependencies]
rand = "0.8"
