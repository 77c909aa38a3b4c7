[package]
name = "bls_multisig"
version = "0.1.0"
edition = "2021"
publish = false

[dependencies]
miracl_core = "*"
rand = "0.8"
