[package]
name = "install_checker"
version = "0.1.0"
edition = "2021"
publish = false

[dependencies]
clap = "4"
crc32fast = "1"
glob = "0.3"
glob-match = "0.2"
sha2 = "0.10"
