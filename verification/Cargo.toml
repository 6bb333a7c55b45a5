[package]
name = "metaframer"
version = "0.1.0"
edition = "2021"
publish = false

[dependencies]
anyhow = "*"
clap = { version = "4", features = ["derive"] }
clap-verbosity-flag = "*"
dirs = "*"
env_logger = "*"
handlebars = "*"
image = { version = "*", default-features = false, features = ["jpeg", "png"] }
kamadak-exif = "*"
log = "*"
serde = { version = "*", features = ["derive"] }
