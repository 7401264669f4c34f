[package]
name = "wraith"
version = "0.1.0"
edition = "2021"
publish = false

[dependencies]
uuid = { version = "*", features = ["v4"] }
chrono = "*"
sysinfo = "*"
dirs = "*"
dotenvy = "*"
tokio = { version = "*", features = ["rt-multi-thread", "net", "io-util", "sync", "time", "signal", "macros", "fs"] }
reqwest = { version = "*", default-features = false }
