[package]
name = "teo"
version = "0.1.0"
edition = "2021"
publish = false

[dependencies]
Inflector = "0.11"
itertools = "0.12"
bson = "2"
async-trait = "0.1"
tokio = { version = "1", features = ["full"] }
hyper = { version = "1", features = ["full"] }
hyper-util = { version = "0.1", features = ["full"] }
http-body-util = "0.1"
bytes = "1"
mime = "0.3"
serde_json = "1"
