[package]
name = "rotato"
version = "0.1.0"
edition = "2021"
publish = false

[dependencies]
aes = "=0.8.4"
anyhow = "=1.0.104"
argon2 = "=0.5.3"
base64 = "=0.22.1"
cbc = "=0.1.2"
chrono = "=0.4.45"
clap = { version = "=4.6.7", features = ["derive", "env"] }
colored = "=2.2.0"
futures = "=0.3.34"
hkdf = "=0.12.4"
hmac = "=0.12.1"
pbkdf2 = "=0.12.2"
rand = "=0.8.8"
reqwest = { version = "=0.12.28", features = ["json", "cookies"] }
rpassword = "=7.5.4"
rsa = "=0.9.10"
serde = { version = "=1.0.229", features = ["derive"] }
serde_json = "=1.0.154"
serde_yaml = "=0.9.34"
sha1 = "=0.10.7"
sha2 = "=0.10.9"
tempfile = "=3.27.0"
tokio = { version = "=1.54.1", features = ["full"] }
walkdir = "=2.5.0"
