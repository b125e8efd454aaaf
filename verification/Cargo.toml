[package]
name = "lanmic"
version = "0.1.0"
edition = "2021"
publish = false

[dependencies]
rtrb = "=0.4.1"
socket2 = { version = "=0.6.5", features = ["all"] }
log = "=0.4.35"
libc = "=0.2.191"
if-addrs = "=0.15.0"
env_logger = "=0.11.11"
cpal = "=0.18.2"
