[package]
name = "pegin_descriptors"
version = "0.1.0"
edition = "2021"
publish = false

[dependencies]
bitcoin = "=0.26.2"
miniscript = "=5.2.0"
elements = "=0.17.0"
# elements brings secp256k1-zkp-sys 0.4.0, which compiles only with this release.
secp256k1-sys = "=0.4.0"
