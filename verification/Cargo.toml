[package]
name = "tarmac"
version = "0.1.0"
edition = "2021"
publish = false

[dependencies]
anyhow = "1"
fs-err = "*"
image = { version = "*", default-features = false, features = ["png"] }
log = "0.4"
path-slash = "*"
rbx_cookie = "*"
rbxcloud = "*"
reqwest = { version = "*", features = ["blocking", "json", "multipart"] }
roblox_install = "*"
secrecy = "*"
serde = { version = "1", features = ["derive"] }
serde_json = "1"
structopt = "0.3"
thiserror = "*"
tokio = { version = "1", features = ["rt"] }
