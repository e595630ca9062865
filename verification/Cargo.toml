[package]
name = "postal_core"
version = "0.1.0"
edition = "2021"
publish = false

[dependencies]
axum = "0.7"
chrono = "0.4"
csv-async = "1"
deadpool-postgres = "*"
dotenv = "0.15"
encoding_rs = "0.8"
futures = "0.3"
futures-util = "0.3"
mysql_async = { version = "*", default-features = false, features = ["minimal"] }
num_cpus = "1"
redis = { version = "0.27", features = ["tokio-comp"] }
reqwest = { version = "0.12", default-features = false, features = ["stream"] }
serde = { version = "1", features = ["derive"] }
serde_json = "1"
tokio = { version = "1", features = ["full"] }
tokio-postgres = { version = "0.7", features = ["with-chrono-0_4"] }
tower-http = { version = "0.5", features = ["cors"] }
unicode-normalization = "0.1"
zip = { version = "2", default-features = false, features = ["deflate"] }
