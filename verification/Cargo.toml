[package]
name = "atomcrypte"
version = "0.1.0"
edition = "2021"
publish = false

[dependencies]
argon2 = "0.5"
blake3 = "1"
num_cpus = "1"
ocl = "0.19"
rand = "0.9"
rayon = "1"
sha3 = "0.10"
subtle = "2"
thiserror = "2"
whoami = "1"
zeroize = "1"
