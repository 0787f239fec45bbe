[package]
name = "pasteport"
version = "0.1.0"
edition = "2021"
publish = false

[dependencies]
anyhow = "1"
base64 = "0.22"
blake3 = "1"
clap = { version = "4", features = ["derive"] }
directories = "*"
ed25519-dalek = "2"
gtk4 = "*"
libc = "0.2"
rusqlite = { version = "*", features = ["bundled"] }
rustix = { version = "*", features = ["process"] }
serde = { version = "1", features = ["derive"] }
serde_json = "1"
thiserror = "*"
time = { version = "0.3", features = ["formatting"] }
toml = "*"
tracing = "0.1"
tracing-subscriber = { version = "0.3", features = ["env-filter"] }
