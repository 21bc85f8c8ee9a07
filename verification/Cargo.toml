[package]
name = "mqtt_publisher"
version = "0.1.0"
edition = "2021"
publish = false

[dependencies]
anyhow = "1"
bigdecimal = "0.4"
chrono = { version = "0.4", default-features = false, features = ["std"] }
diesel = { version = "2", default-features = false, features = ["postgres"] }
rumqttc = { version = "0.24", default-features = false, features = ["url"] }
serde = { version = "1", features = ["derive"] }
serde_json = { version = "1", features = ["arbitrary_precision"] }
sqlx = { version = "0.8", default-features = false, features = ["postgres", "runtime-tokio", "bigdecimal"] }
sqlx-postgres = { version = "0.8", default-features = false, features = ["bigdecimal"] }
tokio = { version = "1", features = ["macros", "rt-multi-thread", "time", "sync"] }
