[package]
name = "kalloc"
version = "0.1.0"
edition = "2021"
publish = false

[dependencies]
spin = "=0.12.3"
x86_64 = { version = "=0.14.13", default-features = false, features = ["instructions"] }
