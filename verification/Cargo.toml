[package]
name = "gwyneth_revm"
version = "0.1.0"
edition = "2021"
publish = false

[dependencies]
alloy-primitives = { version = "=0.8.26", features = ["rlp"] }
k256 = "=0.13.4"
