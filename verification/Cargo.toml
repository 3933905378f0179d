[package]
name = "qpipe"
version = "0.1.0"
edition = "2021"
publish = false

[dependencies]
anyhow = "=1.0.104"
base64 = "=0.21.7"
clap = { version = "=4.6.7", features = ["derive"] }
directories = "=5.0.1"
env_logger = "=0.10.2"
futures-util = "=0.3.34"
log = "=0.4.34"
quinn = "=0.9.4"
rcgen = { version = "=0.10.0", features = ["x509-parser"] }
rustls = { version = "=0.20.9", features = ["dangerous_configuration"] }
tokio = { version = "=1.54.1", features = ["full"] }

[dev-dependencies]
ring = "=0.16.20"
