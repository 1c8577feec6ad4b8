[package]
name = "ledger_wallet"
version = "0.1.0"
edition = "2021"
publish = false

[dependencies]
ethereum-types = "=0.16.0"
ethkey = "=0.2.5"
hidapi = { version = "=2.6.4", default-features = false, features = ["linux-native-basic-udev"] }
parking_lot = "=0.13.0"
