[package]
name = "breadd"
version = "0.1.0"
edition = "2021"
publish = false

[dependencies]
anyhow = "1"
async-trait = "0.1"
futures-util = "0.3"
landlock = "0.4"
libc = "0.2"
mlua = { version = "0.9", features = ["lua54", "vendored", "serialize"] }
netlink-packet-core = "0.7"
netlink-packet-route = "0.17"
notify = "6"
rtnetlink = "0.13"
serde = { version = "1", features = ["derive"] }
serde_json = "1"
tokio = { version = "1", features = ["full"] }
toml = "0.8"
tracing = "0.1"
tracing-subscriber = { version = "0.3", features = ["env-filter"] }
udev = "0.8"
uuid = { version = "1", features = ["v4"] }
zbus = { version = "3", default-features = false, features = ["tokio"] }
