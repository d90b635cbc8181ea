[package]
name = "xactserver"
version = "0.1.0"
edition = "2021"
publish = false

[dependencies]
anyhow = "1"
async-trait = "0.1"
bb8 = "0.8"
bb8-postgres = "0.8"
bit-set = "0.5"
bytes = "1"
clap = { version = "4", features = ["derive"] }
futures = "0.3"
hyper = { version = "0.14", features = ["full"] }
lazy_static = "1"
log = "0.4"
prometheus = { version = "0.13", default-features = false }
prost = "0.11"
routerify = "3"
tokio = { version = "1", features = ["full"] }
tokio-postgres = "0.7"
tokio-stream = "0.1"
tokio-util = "0.7"
tonic = "0.8"
tracing = "0.1"
tracing-subscriber = { version = "0.3", features = ["env-filter"] }
url = "2"
