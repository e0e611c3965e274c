[package]
name = "epoxy"
version = "0.1.0"
edition = "2021"
publish = false

[dependencies]
base64 = "=0.22.1"
ed25519 = "=2.2.3"
ed25519-dalek = { version = "=2.2.0", features = ["pkcs8", "pem"] }
getrandom = "=0.2.17"
http = "=1.5.0"
regex = "=1.13.1"
ring = "=0.17.14"
sha2 = "=0.10.9"
slab = "=0.4.12"
tokio = { version = "=1.54.1", features = ["rt-multi-thread", "macros", "net", "io-util", "time", "sync"] }

[dev-dependencies]
futures = "=0.3.34"
