[package]
name = "sc2_replay_utils"
version = "0.1.0"
edition = "2021"
publish = false

[dependencies]
dirs = "=7.0.0"
notify = "*"
s2protocol = "=5.0.0"
