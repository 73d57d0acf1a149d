[package]
name = "rm_engine"
version = "0.1.0"
edition = "2021"
publish = false

[dependencies]
jiff = "0.2.39"
secrecy = "0.10.3"
clap = { version = "4.6.7", features = ["derive"] }
tokio = { version = "1.54.1", features = ["macros", "rt-multi-thread"] }
tracing = "0.1.44"
v_utils = { version = "*", default-features = false }
