[package]
name = "music2bin"
version = "0.1.0"
edition = "2021"
publish = false

[dependencies]
fraction = "0.15"
num = "0.4"
roxmltree = "0.19"
structopt = "0.3"
env_logger = "0.10"
log = "0.4"
muxml = "0.1"
repl-rs = "0.2"
