[package]
name = "allium"
version = "0.1.0"
edition = "2021"
publish = false

[dependencies]
sha2 = "*"
const-hex = "*"
serde = { version = "*", features = ["derive"] }
serde_json = "*"
anyhow = "*"
log = "*"
tokio = { version = "1", features = ["rt-multi-thread", "macros", "process", "time", "sync", "signal"] }
reqwest = { version = "0.12", default-features = false, features = ["json", "rustls-tls"] }
rustls = { version = "0.23", default-features = false, features = ["ring", "std"] }
webpki-roots = "*"
chrono = { version = "*", features = ["serde"] }
clap = "*"
simple_logger = "*"
memmap2 = "*"
nix = { version = "*", features = ["signal"] }
strum = { version = "*", features = ["derive"] }
