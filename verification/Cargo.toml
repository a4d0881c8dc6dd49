[package]
name = "ergothic"
version = "0.1.0"
edition = "2021"
publish = false

[dependencies]
rand = "*"
serde = { version = "1", features = ["derive"] }
structopt = "0.3"
log = "*"
simple_logger = "*"
prettytable-rs = "*"
bson = "2"
mongodb = { version = "2", default-features = false, features = ["sync"] }
