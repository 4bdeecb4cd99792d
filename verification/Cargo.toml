[package]
name = "rtag"
version = "0.1.0"
edition = "2021"
publish = false

[dependencies]
indradb-lib = "2"
uuid = "0.8"
serde_json = "1"
clap = "2"
prettytable-rs = "0.8"
rusqlite = "0.21"
