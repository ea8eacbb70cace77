[package]
name = "esmail"
version = "0.1.0"
edition = "2021"
publish = false

[dependencies]
ammonia = "4"
anyhow = "1"
async-imap = { version = "0.11", default-features = false, features = ["runtime-tokio"] }
base64 = "0.22"
directories = "6"
dpi = "0.1"
eframe = { version = "0.34", default-features = false, features = ["glow"] }
egui = { version = "0.34", default-features = false }
env_logger = { version = "0.11", default-features = false }
euclid = "0.22"
futures = "0.3"
http = "1"
keyboard-types = "0.8"
lettre = { version = "0.11", default-features = false, features = ["builder", "smtp-transport", "tokio1-native-tls"] }
log = "0.4"
mailparse = "0.16"
opener = { version = "0.8", default-features = false }
raw-window-handle = "0.6"
rusqlite = { version = "0.37", features = ["bundled"] }
secrecy = "0.10"
serde = { version = "1", features = ["derive"] }
tokio = { version = "1", features = ["net", "rt-multi-thread", "sync", "time", "macros"] }
tokio-native-tls = "0.3"
toml = "0.9"
url = "2"
