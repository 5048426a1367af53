[package]
name = "interoptopus_c"
version = "0.1.0"
edition = "2021"
publish = false

[dependencies]
interoptopus = "0.16.6"
interoptopus_backend_utils = "=0.15.0-alpha.24"
