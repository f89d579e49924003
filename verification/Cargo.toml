[package]
name = "ltengine"
version = "0.1.0"
edition = "2021"
publish = false

[dependencies]
actix-web = "=4.18.1"
anyhow = "=1.0.104"
clap = { version = "=4.6.7", features = ["derive"] }
encoding_rs = "=0.8.44"
llama-cpp-2 = "=0.1.160"
parking_lot = "=0.12.5"
serde = { version = "1", features = ["derive"] }
serde_json = "=1.0.154"
thiserror = "=2.0.21"
