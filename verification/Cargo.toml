[package]
name = "ktimetracker"
version = "0.1.0"
edition = "2021"
publish = false

[dependencies]
anyhow = "=1.0.104"
chrono = "=0.4.45"
clap = { version = "=4.6.7", features = ["derive"] }
env_logger = "=0.11.11"
futures = "=0.3.34"
log = "=0.4.34"
serde = { version = "=1.0.229", features = ["derive"] }
serde_json = "=1.0.151"
sqlx = { version = "=0.9.0", default-features = false, features = ["runtime-tokio", "sqlite"] }
tokio = { version = "=1.53.2", features = ["macros", "rt-multi-thread", "net", "sync", "signal", "io-util"] }
wayrs-client = "=1.3.1"
wayrs-protocols = { version = "=0.14.11", features = ["ext-idle-notify-v1"] }
wayrs-utils = { version = "=0.17.2", features = ["seats"] }
zbus = { version = "=5.19.0", default-features = false, features = ["tokio"] }
