[package]
name = "iroha2_longevity_load"
version = "0.1.0"
edition = "2021"
publish = false

[dependencies]
chrono = "*"
serde = { version = "*", features = ["derive"] }
serde_json = "*"
tokio = { version = "*", features = ["full"] }
hyper = { version = "*", features = ["full"] }
hyper-util = { version = "*", features = ["full"] }
http-body-util = "*"
structopt = "*"
async-trait = "*"
futures-util = "*"
rand = "*"
url = "*"
