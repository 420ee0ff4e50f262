[package]
name = "hammer_transport"
version = "0.1.0"
edition = "2021"
publish = false

[dependencies]
arc-swap = "1"
crossbeam-utils = "*"
thiserror = "*"

[dev-dependencies]
etherparse = "*"
