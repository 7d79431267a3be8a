[package]
name = "reims_vgpu_vulkan"
version = "0.1.0"
edition = "2021"
publish = false

[dependencies]
ash = { version = "0.38", default-features = false, features = ["std", "debug"] }
parking_lot = "0.12"
