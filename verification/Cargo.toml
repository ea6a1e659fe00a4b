[package]
name = "dory_with_zk"
version = "0.1.0"
edition = "2021"
publish = false

[dependencies]
ark-bls12-381 = "=0.3.0"
ark-ec = "=0.3.0"
ark-ff = "=0.3.0"
ark-serialize = "=0.3.0"
ark-std = "=0.3.0"
blake2 = "=0.9.2"
digest = "=0.9.0"
