[package]
name = "bootloader_core"
version = "0.1.0"
edition = "2021"
publish = false

[dependencies]
cairo-vm = { version = "*", features = ["extensive_hints", "cairo-1-hints"] }
cairo-lang-casm = "*"
cairo-lang-executable = "*"
cairo-lang-runner = "*"
num-traits = "*"
serde_json = "*"
thiserror = "*"
