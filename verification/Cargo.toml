[package]
name = "uuid_tool"
version = "0.1.0"
edition = "2021"
publish = false

[dependencies]
rand = "0.8"
mac_address = "*"
structopt = "0.3"

[dev-dependencies]
uuid = { version = "0.8", features = ["v1", "v4"] }
