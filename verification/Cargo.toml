[package]
name = "relay_connection"
version = "0.1.0"
edition = "2021"
publish = false

[dependencies]
uuid = "1"
async-graphql = { version = "7", default-features = false }
