[package]
name = "octos-agent"
version = "0.1.0"
edition = "2021"
publish = false

[dependencies]
async-trait = "0.1"
chrono = "0.4"
dirs = "5"
eyre = "0.6"
libc = "0.2"
serde = { version = "1", features = ["derive"] }
serde_json = "=1.0.154"
sha2 = "=0.10.9"
shlex = "=1.3.0"
tempfile = "3"
tokio = { version = "1", features = ["fs", "io-util", "macros", "process", "rt-multi-thread", "sync", "time"] }
toml = "=0.8.23"
tracing = "0.1"
uuid = { version = "1", features = ["v4"] }
which = "6"
