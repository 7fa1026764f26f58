[package]
name = "starknet_syscalls"
version = "0.1.0"
edition = "2021"
publish = false

[dependencies]
keccak = "=0.1.6"
starknet-crypto = "=0.8.1"
