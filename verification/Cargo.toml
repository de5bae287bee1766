[package]
name = "neogrok"
version = "0.1.0"
edition = "2021"
publish = false

[dependencies]
zstd = "*"
tokio = { version = "*", features = ["sync", "rt-multi-thread", "net", "io-util", "time", "macros"] }
clap = { version = "*", features = ["derive"] }
log = "*"
pretty_env_logger = "*"
num_cpus = "*"
anyhow = "*"
