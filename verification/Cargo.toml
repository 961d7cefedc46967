[package]
name = "geoipsed"
version = "0.1.0"
edition = "2021"
publish = false

[dependencies]
camino = "=1.2.6"
clap = { version = "=4.6.7", features = ["derive", "env"] }
grep-cli = "=0.1.12"
maxminddb = { version = "=0.32.0", features = ["mmap"] }
regex-automata = "=0.4.18"
ripline = "=0.1.0"
rustc-hash = "=2.1.3"
serde_json = "=1.0.154"
termcolor = "=1.4.1"
thiserror = "=2.0.21"
