[package]
name = "ext2fs"
version = "0.1.0"
edition = "2021"
publish = false

[dependencies]
argparse = "*"
chrono = "*"
humansize = "*"
unix_mode = "*"
