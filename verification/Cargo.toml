[package]
name = "vishwarupa"
version = "0.1.0"
edition = "2021"
publish = false

[dependencies]
argon2 = "0.5"
chacha20poly1305 = "0.10"
hex = "0.4"
local-ip-address = "*"
lz4 = "1"
mdns-sd = "*"
rand = "0.8"
reed-solomon-erasure = "6"
reqwest = { version = "0.11", default-features = false, features = ["blocking", "json"] }
rpassword = "7"
serde = { version = "1", features = ["derive"] }
serde_json = "1"
sled = "0.34"
tokio = { version = "1", features = ["full"] }
uuid = { version = "1", features = ["v4"] }
zeroize = "1"
