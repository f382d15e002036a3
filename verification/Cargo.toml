[package]
name = "satnogs_monitor"
version = "0.1.0"
edition = "2021"
publish = false

[dependencies]
anyhow = "1"
chrono = "0.4"
libc = "0.2"
log = "0.4"
notify = "*"
restson = "*"
serde = "1"
serde_derive = "1"
signal-hook = "*"
systemstat = "*"
