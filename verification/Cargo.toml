[package]
name = "loongsonejtag"
version = "0.1.0"
edition = "2021"
publish = false

[dependencies]
nusb = "0.1"
thiserror = "2"
docsplay = "0.1"
tracing = "0.1"
zerocopy = "0.8"
probe-rs-target = "*"
async-io = "2"
futures-lite = "2"

[dev-dependencies]
bitfield = "*"
