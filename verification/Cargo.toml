[package]
name = "text_console"
version = "0.1.0"
edition = "2021"
publish = false

[dependencies]
bootloader_api = "0.11"
linked_list_allocator = "0.10"
log = "0.4"
x86_64 = { version = "0.15", default-features = false, features = ["instructions"] }
