[package]
name = "flagfetch"
version = "0.1.0"
edition = "2021"
publish = false

[dependencies]
acumen = "*"
anyhow = "*"
clap = { version = "*", features = ["derive"] }
humansize = "*"
itertools = "*"
owo-colors = "*"
rustix = { version = "*", features = ["process", "system", "thread", "time"] }
