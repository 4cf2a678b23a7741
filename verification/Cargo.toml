[package]
name = "moblink_rust"
version = "0.1.0"
edition = "2021"
publish = false

[dependencies]
base64 = "=0.22.1"
clap = { version = "=4.6.7", features = ["derive"] }
env_logger = "=0.11.11"
futures-util = { version = "=0.3.34", features = ["sink"] }
gethostname = "=1.1.0"
http = "=1.5.0"
ipnetwork = "=0.21.1"
log = "=0.4.35"
mdns-sd = "=0.13.11"
network-interface = "=2.0.5"
packet = "=0.1.4"
pnet = "=0.35.0"
rand = "=0.9.5"
regex = "=1.13.1"
serde = { version = "=1.0.229", features = ["derive"] }
serde_json = "=1.0.154"
sha2 = "=0.10.9"
socket2 = { version = "=0.5.10", features = ["all"] }
tokio = { version = "=1.54.1", features = ["full"] }
tokio-tungstenite = "=0.26.2"
tokio-util = { version = "=0.7.20", features = ["codec"] }
tun = { version = "=0.7.22", features = ["async"] }
url = "=2.5.8"
uuid = { version = "=1.29.0", features = ["serde", "v4"] }
