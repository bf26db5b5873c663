[package]
name = "dog_core"
version = "0.1.0"
edition = "2021"
publish = false

[dependencies]
x86_64 = { version = "0.15", default-features = false, features = ["instructions"] }
uefi = { version = "*", features = ["logger"] }
multiboot2 = "*"
lazy_static = { version = "1", features = ["spin_no_std"] }
log = "0.4"
elf = { version = "*", default-features = false }
