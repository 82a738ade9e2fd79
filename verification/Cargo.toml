[package]
name = "dlt_core"
version = "0.1.0"
edition = "2021"
publish = false

[dependencies]
byteorder = "1"
futures = "0.3"
log = "0.4"
memchr = "2"
nom = "7"
pcap-parser = "*"
quick-xml = "0.31"
rustc-hash = "2"
serde = { version = "1", features = ["derive"] }
serde_json = "1"
thiserror = "1"

[dev-dependencies]
bytes = "1"
