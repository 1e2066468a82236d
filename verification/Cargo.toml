[package]
name = "yaw_dbproxy"
version = "0.1.0"
edition = "2021"
publish = false

[dependencies]
serde_json = "=1.0.151"
bigdecimal = "=0.2.2"
scylla = { version = "=0.8.2", features = ["ssl"] }
actix-web = { version = "=4.15.0", features = ["openssl"] }
openssl = "=0.10.81"
tokio = { version = "=1.53.2", features = ["rt-multi-thread", "macros", "sync"] }
serde = { version = "=1.0.229", features = ["derive"] }
envy = "=0.4.2"
num_cpus = "=1.17.0"
