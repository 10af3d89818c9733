[package]
name = "bar"
version = "0.1.0"
edition = "2021"
publish = false

[dependencies]
docopt = "0.6"
libc = "0.2"
rustc-serialize = "0.3"
term = "0.4"
toml = "0.1"
