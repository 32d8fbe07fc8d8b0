[package]
name = "r_chat"
version = "0.1.0"
edition = "2021"
publish = false

[dependencies]
bincode = "1.3"
serde = { version = "1.0", features = ["derive"] }
structopt = "0.3"
dotenvy = "0.15"
log = "0.4"
