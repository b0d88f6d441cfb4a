[package]
name = "chatbot"
version = "0.1.0"
edition = "2021"
publish = false

[dependencies]
anyhow = "1"
async-trait = "0.1"
base64 = "0.22"
clap = { version = "4", features = ["derive"] }
crossterm = "0.29"
ctrlc = "3"
dirs = "6"
flate2 = "1"
futures-util = { version = "0.3", features = ["sink"] }
hound = "3"
libc = "0.2"
pinyin = "0.10"
reqwest = { version = "0.12", features = ["json", "stream"] }
serde = { version = "1", features = ["derive"] }
serde_json = "1"
tokio = { version = "1", features = ["rt-multi-thread", "macros", "time", "sync", "net", "io-util"] }
tokio-tungstenite = { version = "0.24", features = ["native-tls"] }
toml = "0.8"
uuid = { version = "1", features = ["v4"] }
