[package]
name = "host_discovery"
version = "0.3.0"
edition = "2021"
publish = false

[dependencies]
aes-gcm = "*"
chrono = "*"
dns-lookup = "*"
machine-uid = "*"
pnet = "*"
serde = { version = "*", features = ["derive"] }
serde_json = "*"
sha2 = "*"
surge-ping = "*"
tokio = { version = "*", features = ["full"] }
whoami = "*"
