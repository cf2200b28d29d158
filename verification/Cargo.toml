[package]
name = "rp_usb"
version = "0.1.0"
edition = "2021"
publish = false

[dependencies]
cortex-m = "=0.7.10"
critical-section = "=1.2.0"
embassy-hal-internal = { version = "=0.5.0", features = ["cortex-m", "prio-bits-2"] }
embassy-sync = "=0.8.0"
embassy-usb-driver = "=0.2.2"
rp-pac = { version = "=7.0.0", features = ["rp2040"] }
