[package]
name = "moonfire_db"
version = "0.1.0"
edition = "2021"
publish = false

[dependencies]
failure = "0.1"
fnv = "1.0"
libc = "0.2"
log = "0.4"
nix = "0.16"
openssl = "0.10"
parking_lot = "0.9"
rusqlite = "0.21"
structopt = "0.3"
time = "0.1"
uuid = "0.8"
