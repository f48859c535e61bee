[package]
name = "serix"
version = "0.1.0"
edition = "2021"
publish = false

[dependencies]
x86_64 = { version = "=0.15.5", default-features = false, features = ["instructions"] }
spin = "=0.12.3"
limine = "=0.5.0"
linked_list_allocator = "=0.10.6"
lazy_static = "=1.5.1"
multiboot2 = "=0.28.0"
