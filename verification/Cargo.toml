[package]
name = "pad_merger"
version = "0.1.0"
edition = "2021"
publish = false

[dependencies]
log = "*"
simple_logger = "*"
rusty-xinput = "*"
vigem-client = "*"
