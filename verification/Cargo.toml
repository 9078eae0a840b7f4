[package]
name = "purplecoin_vm"
version = "0.1.0"
edition = "2021"
publish = false

[dependencies]
anyhow = "1"
base64 = "0.21"
bincode = { version = "2.0.1", features = ["derive"] }
blake2 = "0.10"
blake3 = { version = "1", default-features = false, features = ["pure", "std"] }
constant_time_eq = "0.3"
hex = "0.4"
ibig = { version = "0.3", default-features = false, features = ["std", "num-traits"] }
log = "0.4"
num-derive = "0.4"
num-traits = "0.2"
ripemd = "0.1"
sha2 = "0.10"
sha3 = "0.10"
