[package]
name = "pallet_mixer"
version = "0.1.0"
edition = "2021"
publish = false

[dependencies]
parity-scale-codec = { version = "=2.3.1", default-features = false, features = ["derive", "std"] }
sp-runtime = "=3.0.0"
# Not used directly: holds sp-core 3.0.0 to the schnorrkel 0.9 it compiles with.
substrate-bip39 = "=0.4.2"
