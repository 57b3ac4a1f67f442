[package]
name = "kanidm_schema"
version = "0.1.0"
edition = "2021"
publish = false

[dependencies]
concread = "0.2"
hashbrown = "0.9"
uuid = { version = "0.8", features = ["v4"] }
