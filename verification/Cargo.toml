[package]
name = "testgen"
version = "0.1.0"
edition = "2021"
publish = false

[dependencies]
rand = "0.4"
time = "0.1"
serde = "0.8"
serde_json = "0.8"
hyper = { version = "0.10", default-features = false }
docopt = "0.6"
rustc-serialize = "0.3"
ethkey = "0.2.5"
