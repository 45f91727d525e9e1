[package]
name = "rfs"
version = "0.1.0"
edition = "2021"
publish = false

[dependencies]
chrono = "0.4"
clap = { version = "3.2", features = ["derive"] }
ctrlc = "3"
fuse_mt = "0.6"
fuser = "*"
libc = "0.2"
log = "0.4"
prost = "0.11"
reqwest = { version = "0.11", default-features = false, features = ["blocking"] }
serde_json = "1"
tokio = { version = "1", features = ["rt-multi-thread"] }
tonic = "0.8"
url = "2"
uuid = { version = "1", features = ["v4"] }
