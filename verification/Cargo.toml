[package]
name = "compute"
version = "0.1.0"
edition = "2021"
publish = false

[dependencies]
crc32fast = "*"
tera = { version = "*", default-features = false }
serde = { version = "*", features = ["derive"] }
json5 = "*"
tokio = { version = "*", features = ["full"] }
reqwest = { version = "0.11", default-features = false, features = ["rustls-tls"] }
rusoto_core = { version = "*", default-features = false, features = ["rustls"] }
rusoto_s3 = { version = "*", default-features = false, features = ["rustls"] }
libc = "*"
clap = { version = "*", features = ["derive"] }
log = "*"
pretty_env_logger = "*"
async-recursion = "*"
