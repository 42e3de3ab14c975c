[package]
name = "cumulus-primitives-utility"
version = "0.1.0"
edition = "2021"
publish = false

[dependencies]
cumulus-primitives-core = { version = "*", default-features = false }
frame-support = { version = "*", default-features = false }
log = { version = "*", default-features = false }
parity-scale-codec = { version = "*", default-features = false }
sp-runtime = { version = "*", default-features = false }
staging-xcm = { version = "*", default-features = false }
staging-xcm-builder = { version = "*", default-features = false }
staging-xcm-executor = { version = "*", default-features = false }
