[package]
name = "lantern_backend"
version = "0.1.0"
edition = "2021"
publish = false

[dependencies]
base32 = "=0.4.0"
bytecount = "=0.6.9"
crc32fast = "=1.5.4"
rust-argon2 = "=0.8.3"
urlencoding = "=2.1.3"
z85 = "=3.0.7"
mime = "=0.3.17"
rand = "=0.8.8"
parking_lot = "=0.12.5"
smallvec = "=1.16.4"
arrayvec = "=0.7.8"
scc = "2"
hashbrown = "0.14"
ahash = "0.8"
