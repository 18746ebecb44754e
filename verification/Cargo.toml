[package]
name = "ppproxy"
version = "0.1.0"
edition = "2021"
publish = false

[dependencies]
anyhow = "*"
chrono = "*"
dotenvy = "*"
env_logger = "*"
futures = "*"
ipnetwork = "*"
log = "*"
netlink-packet-core = "*"
netlink-packet-route = "*"
netlink-sys = "*"
rtnetlink = "*"
serde = { version = "*", features = ["derive"] }
serde_json = "*"
sysinfo = "*"
tokio = { version = "*", features = ["macros", "rt-multi-thread", "process", "sync", "time", "signal", "io-util"] }
