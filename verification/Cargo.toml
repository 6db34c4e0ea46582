[package]
name = "fot_save"
version = "0.1.0"
edition = "2021"
publish = false

[dependencies]
byteorder = "1"
encoding_rs = "0.8"
flate2 = "1"
widestring = "1"
thiserror = "1"
derive-debug = "0.1"
