[package]
name = "mini-bootloader"
version = "0.1.0"
edition = "2021"
publish = false

[dependencies]
sha2 = { version = "0.10", default-features = false }
esp-p4-bootloader = "0.1.0"
esp-p4-psram = "0.1.0"
riscv-rt = "*"
