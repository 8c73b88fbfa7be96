[package]
name = "dp"
version = "0.1.0"
edition = "2021"
publish = false

[dependencies]
chrono = { version = "0.4", default-features = false, features = ["std", "clock"] }
regex = "1"
log = "0.4"
stderrlog = "0.5"
structopt = "0.3"
