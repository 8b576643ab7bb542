[package]
name = "bachelor"
version = "0.1.0"
edition = "2021"
publish = false

[dependencies]
futures-core = "0.3"
futures-sink = "0.3"
slab = "0.4"
smallvec = "1"

[dev-dependencies]
futures-executor = "0.3"
futures-test = "0.3"
