[package]
name = "uosql"
version = "0.1.0"
edition = "2021"
publish = false

[dependencies]
bincode = "1.3"
serde = { version = "1", features = ["derive"] }
log = "0.4"
term-painter = "*"
nickel = "*"
hyper = "0.10"
cookie = "*"
plugin = "*"
typemap = "*"
url = "*"
