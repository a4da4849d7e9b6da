[package]
name = "agent-locksmith"
version = "0.1.0"
edition = "2021"
publish = false

[dependencies]
aes-gcm = "=0.10.3"
argon2 = { version = "=0.5.3", features = ["std"] }
arc-swap = "=1.9.3"
async-trait = "=0.1.92"
axum = "=0.8.9"
base64 = "=0.22.1"
bytes = "=1.12.1"
clap = { version = "=4.6.7", features = ["derive", "env"] }
getrandom = "=0.3.4"
http-body-util = "=0.1.5"
hyper = { version = "=1.12.0", features = ["client", "http1"] }
hyper-util = { version = "=0.1.21", features = ["tokio"] }
pem = "=3.0.6"
reqwest = { version = "=0.12.28", default-features = false, features = ["json", "rustls-tls", "stream"] }
rustls = { version = "=0.23.46", default-features = false, features = ["std", "ring", "tls12"] }
rustls-pemfile = "=2.2.0"
rustls-webpki = { version = "=0.103.16", default-features = false, features = ["std", "ring"] }
secrecy = "=0.10.3"
serde = { version = "=1.0.229", features = ["derive"] }
serde_json = "=1.0.154"
serde_yaml = "=0.9.34+deprecated"
sha2 = "=0.10.9"
sqlx = { version = "=0.8.6", default-features = false, features = ["sqlite", "runtime-tokio"] }
thiserror = "=2.0.21"
tokio = { version = "=1.54.1", features = ["full"] }
tokio-rustls = { version = "=0.26.6", default-features = false, features = ["ring", "tls12"] }
tower = { version = "=0.5.3", features = ["util"] }
tracing = "=0.1.44"
x509-parser = "=0.17.0"
