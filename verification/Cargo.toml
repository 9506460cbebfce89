[package]
name = "shvbroker"
version = "0.1.0"
edition = "2021"
publish = false

[dependencies]
sha1 = "0.10"
rand = "0.8"
async-std = "1"
futures = "0.3"
log = "0.4"
simple_logger = "4"
structopt = "0.3"
