[package]
name = "ethbindgen"
version = "0.1.0"
edition = "2021"
publish = false

[dependencies]
anyhow = "1"
proc-macro2 = "1"
serde_json = "1"
