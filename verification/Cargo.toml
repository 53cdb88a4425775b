[package]
name = "saphir"
version = "0.1.0"
edition = "2021"
publish = false

[dependencies]
regex = "1"
futures = "0.1"
hyper = "0.12"
tokio = "0.1"
rayon = "1"
ansi_term = "0.12"
log = "0.4"
http = "0.1"
