[package]
name = "emu8086"
version = "0.1.0"
edition = "2021"
publish = false

[dependencies]
iced-x86 = { version = "1", default-features = false, features = ["std", "decoder", "fast_fmt"] }
thiserror = "1"
anyhow = "1"
sys-info = "0.9"
