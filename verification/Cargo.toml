[package]
name = "usbfs"
version = "0.1.0"
edition = "2021"
publish = false

[dependencies]
embassy-sync = "0.7"
embassy-usb-driver = "0.2"
