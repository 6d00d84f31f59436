[package]
name = "deployment"
version = "0.1.0"
edition = "2021"
publish = false

[dependencies]
async-std = "1"
futures = "0.3"
hashbrown = "0.11"
