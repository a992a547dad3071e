[package]
name = "deepzoom"
version = "0.1.0"
edition = "2021"
publish = false

[dependencies]
image = "*"
actix-web = "*"
actix-files = "*"
derive_more = { version = "*", features = ["display", "error"] }
env_logger = "*"
log = "*"
tokio = { version = "*", features = ["macros", "rt-multi-thread"] }
