[package]
name = "gamecore"
version = "0.1.0"
edition = "2021"
publish = false

[dependencies]
fnv = "1"
itertools = "*"
pathfinding = "*"
rand = "0.8"
rand_chacha = "0.3"
smallvec = "1"
