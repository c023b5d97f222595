[package]
name = "periph_infer"
version = "0.1.0"
edition = "2021"
publish = false

[dependencies]
byteorder = "*"
fugue = "*"
fuguex = "*"
log = "*"
parking_lot = "*"
protobuf = "*"
thiserror = "*"
