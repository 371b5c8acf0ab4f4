[package]
name = "gitql"
version = "0.1.0"
edition = "2021"
publish = false

[dependencies]
comfy-table = "=7.1.4"
git2 = { version = "=0.20.4", default-features = false }
regex = "=1.13.1"
