[package]
name = "ssz_nif"
version = "0.1.0"
edition = "2021"
publish = false

[dependencies]
tree_hash = "=0.5.2"
ethereum-types = "=0.14.1"
rustler = "=0.29.1"
snap = "=1.1.2"
c-kzg = "=0.4.2"

[dev-dependencies]
ethereum_ssz = "=0.5.4"
ssz_types = "=0.5.4"
typenum = "=1.20.1"
ethereum_hashing = "=1.0.0-beta.2"
