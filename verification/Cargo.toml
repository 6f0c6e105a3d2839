[package]
name = "redcache"
version = "0.1.0"
edition = "2021"
publish = false

[dependencies]
deadpool-redis = "*"
hashbrown = "*"
serde = { version = "*", features = ["derive"] }
serde_cbor = "*"
thiserror = "*"
twilight-model = "*"
