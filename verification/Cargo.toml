[package]
name = "editor_core"
version = "0.1.0"
edition = "2021"
publish = false

[dependencies]
xi-rope = "0.3"
lsp-types = "0.89"
anyhow = "1"
crossbeam-channel = "0.5"
indexmap = "1"
log = "0.4"
druid = { version = "0.8", default-features = false }
