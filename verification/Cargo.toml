[package]
name = "blockstats"
version = "0.1.0"
edition = "2021"
publish = false

[dependencies]
bitcoin = "=0.32.102"
rawtx-rs = "=0.2.0"
bitcoin-pool-identification = "=0.3.8"
chrono = "*"
clap = { version = "*", features = ["derive"] }
diesel = { version = "*", features = ["sqlite", "64-column-tables"] }
libsqlite3-sys = { version = "*", features = ["bundled"] }
log = "*"
rayon = "*"
statrs = "*"
serde = { version = "*", features = ["derive"] }
serde_json = "*"
