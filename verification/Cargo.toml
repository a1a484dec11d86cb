[package]
name = "wtg"
version = "0.1.0"
edition = "2021"
publish = false

[dependencies]
clap = { version = "=4.5.61", features = ["derive"] }
libc = "=0.2.190"
nix = { version = "=0.29.0", features = ["term", "process", "signal", "fs"] }
reqwest = { version = "=0.12.28", default-features = false, features = ["blocking", "json", "rustls-tls"] }
serde = { version = "=1.0.229", features = ["derive"] }
serde_json = "=1.0.151"
signal-hook = "=0.3.18"
