[package]
name = "rtl_action"
version = "0.1.0"
edition = "2021"
publish = false

[dependencies]
futures = "0.3"
libc = "0.2"
structopt = "0.3"
tokio = { version = "1", features = ["full"] }
