[package]
name = "cache_grep"
version = "0.1.0"
edition = "2021"
publish = false

[dependencies]
anyhow = "*"
aws-config = "*"
aws-sdk-s3 = "*"
bytes = "*"
clap = { version = "*", features = ["derive"] }
futures = "*"
multimap = "*"
nix-nar = "*"
reqwest = { version = "*", default-features = false }
tokio = { version = "*", features = ["rt-multi-thread", "macros"] }
xz2 = { version = "*", features = ["static"] }
yara = "*"
