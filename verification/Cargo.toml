[package]
name = "parsql"
version = "0.3.3"
edition = "2021"
publish = false

[dependencies]
regex = "1"
syn = { version = "2", features = ["full"] }
quote = "1"
proc-macro2 = "1"
postgres = "0.19"
tokio-postgres = "0.7"
deadpool-postgres = "*"
async-trait = "0.1"
rusqlite = { version = "*", features = ["bundled"] }
