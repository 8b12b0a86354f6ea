[package]
name = "ezal-core"
version = "0.1.0"
edition = "2021"
publish = false

[dependencies]
cyw43 = "=0.7.0"
defmt = "=1.2.0"
embassy-executor = "=0.9.1"
embassy-net = { version = "=0.9.1", features = ["tcp", "dhcpv4", "proto-ipv4", "medium-ethernet"] }
embassy-sync = "=0.8.0"
embassy-time = "=0.5.1"
heapless = "=0.9.3"
picoserve = { version = "=0.20.1", features = ["embassy"] }
static_cell = "=2.1.1"
