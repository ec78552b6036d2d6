[package]
name = "sapling_client"
version = "0.1.0"
edition = "2021"
publish = false

[dependencies]
jubjub = "=0.10.0"
bls12_381 = "=0.8.0"
ff = "=0.13.1"
blake2s_simd = "=1.0.5"
blake2b_simd = "=1.0.5"
chacha20poly1305 = "=0.10.1"
chacha20 = "=0.9.1"
fpe = "0.6"
aes = "0.8"
rand = "=0.8.8"
