[package]
name = "ssh_stamp"
version = "0.1.0"
edition = "2021"
publish = false

[dependencies]
sunset = "=0.6.0"
sunset-async = "=0.6.0"
ssh-key = "=0.6.7"
sha2 = "=0.11.1"
getrandom = "=0.4.3"
heapless = "=0.8.0"
ed25519-dalek = "=3.0.0"
embassy-net = { version = "=0.9.1", features = ["proto-ipv4", "proto-ipv6", "medium-ethernet", "udp"] }
embassy-sync = "=0.8.0"
embassy-futures = "=0.1.2"
embedded-storage = "=0.3.2"
log = "=0.4.35"
