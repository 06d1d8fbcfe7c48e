[package]
name = "soda"
version = "0.1.0"
edition = "2021"
publish = false

[dependencies]
object = { version = "=0.40.0", features = ["write"] }
anyhow = "=1.0.104"
log = "=0.4.34"
simple_logger = "=5.2.0"
structopt = "=0.3.26"
thiserror = "=2.0.21"
