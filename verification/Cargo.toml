[package]
name = "fall"
version = "0.1.0"
edition = "2021"
publish = false

[dependencies]
rand = "*"
chrono = "0.4"
tracing = "0.1"
tracing-subscriber = "*"
tracing-log = "*"
log = "0.4"
actix-web = { version = "*", default-features = false }
actix-http = { version = "*", default-features = false }
actix-service = "*"
actix-rt = "*"
awc = { version = "*", default-features = false }
futures-core = "0.3"
futures-util = "0.3"
serde = { version = "1", features = ["derive"] }
serde_json = "1"
config = { version = "*", default-features = false, features = ["toml", "json"] }
r2d2 = "*"
r2d2_redis = "*"
diesel = { version = "*", default-features = false, features = ["postgres", "r2d2"] }

[dev-dependencies]
quickcheck = "*"
