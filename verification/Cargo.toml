[package]
name = "grapple-probe"
version = "0.1.0"
edition = "2021"
publish = false

[dependencies]
fletcher = "=1.0.0"
bbqueue = "=0.5.1"
embassy-sync = "=0.8.0"
embassy-time = { version = "=0.5.1", features = ["std"] }
embassy-usb = "=0.6.0"
embassy-futures = "=0.1.2"
embedded-hal-async = "=1.0.0"
embedded-io-async = "=0.7.0"
embedded-storage-async = "=0.4.2"
sequential-storage = "=8.0.2"
nusb = "=0.2.9"
clap = { version = "=4.6.7", features = ["derive"] }
hex = "=0.4.3"
fixed = "=1.31.0"
replace_with = "=0.1.8"
