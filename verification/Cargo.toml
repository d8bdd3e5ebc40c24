[package]
name = "jbot"
version = "0.1.0"
edition = "2021"
publish = false

[dependencies]
md5 = "=0.7.0"
sm3 = "=0.4.2"
form_urlencoded = "=1.2.2"
rand = "=0.10.3"
jiff = "=0.2.39"
regex = "=1.13.1"
unicode-width = "=0.2.3"
tokio = { version = "=1.54.1", features = ["full"] }
futures-util = "=0.3.34"
indicatif = "=0.17.11"
rustix = { version = "=1.1.6", features = ["termios", "stdio"] }
tracing = "=0.1.44"
tracing-subscriber = { version = "=0.3.23", features = ["env-filter"] }
thiserror = "=2.0.21"
serde = { version = "=1.0.229", features = ["derive"] }
serde_json = "=1.0.154"
