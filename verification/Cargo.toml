[package]
name = "delicate"
version = "0.1.0"
edition = "2021"
publish = false

[dependencies]
rsa = "=0.4.1"
sha2 = "0.9"
sysinfo = "=0.39.6"
serde = { version = "=1.0.229", features = ["derive"] }
serde_json = "=1.0.154"
actix-web = "=4.18.1"
async-lock = "=3.4.2"
diesel = { version = "=1.4.8", features = ["mysql", "chrono"] }
chrono = "=0.4.45"

[dev-dependencies]
rand = "=0.8.8"
