[package]
name = "sim2h"
version = "0.1.0"
edition = "2021"
publish = false

[dependencies]
log = "0.4"
parking_lot = "0.9"
rand = "0.7"
url = "~2.1"
