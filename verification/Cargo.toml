[package]
name = "autobahn"
version = "0.2.0"
edition = "2021"
publish = false

[dependencies]
libc = "*"
tungstenite = "*"
toml = "*"
serde = "*"
serde_derive = "*"
clap = "*"
log = "*"
simple_logger = "*"
lazy_static = "*"
vt100 = "*"

[dev-dependencies]
minicbor = "*"
