[package]
name = "granola"
version = "0.1.0"
edition = "2021"
publish = false

[dependencies]
aes = "*"
aes-gcm = "*"
anyhow = "1"
base64 = "*"
cbc = { version = "*", features = ["alloc"] }
chrono = "0.4"
clap = { version = "4", features = ["derive"] }
comfy-table = "7"
directories = "*"
fd-lock = "4"
keyring = "3"
pbkdf2 = "*"
rmcp = { version = "*", features = ["server", "macros", "transport-io"] }
schemars = "1"
serde = { version = "1", features = ["derive"] }
serde_json = "1"
serde_yaml = "0.9"
sha1 = "*"
thiserror = "2"
tokio = { version = "1", features = ["rt-multi-thread", "time", "macros"] }
ureq = { version = "2", features = ["json"] }
