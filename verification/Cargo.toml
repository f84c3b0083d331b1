[package]
name = "nust64"
version = "0.1.0"
edition = "2021"
publish = false

[dependencies]
bytes = "=1.12.1"
crc = "=3.4.0"
object = { version = "=0.36.7", default-features = false, features = ["read", "std"] }
bpaf = { version = "=0.9.28", features = ["derive"] }
camino = "=1.2.6"
shlex = "=1.3.0"
