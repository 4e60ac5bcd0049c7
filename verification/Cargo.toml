[package]
name = "wgpu_ffx"
version = "0.1.0"
edition = "2021"
publish = false

[dependencies]
anyhow = "1"
bitflags = "2"
bytemuck = { version = "=1.25.2", features = ["derive"] }
camino = "=1.2.6"
half = "=2.7.1"
indexmap = { version = "=2.14.2", features = ["serde"] }
indicatif = "0.18"
pico-args = "0.5"
pollster = "1"
rayon = "1"
serde = { version = "1", features = ["derive"] }
thiserror = "2"
toml = "1"
wgpu = { version = "=29.0.4", features = ["spirv"] }
