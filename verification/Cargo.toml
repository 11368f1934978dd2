[package]
name = "msvc_env"
version = "0.1.0"
edition = "2021"
publish = false

[dependencies]
indexmap = "2"
thiserror = "2"
tracing = "0.1"
tracing-subscriber = "0.3"
ureq = "3"
