[package]
name = "field_ops_benchmarks"
version = "0.1.0"
edition = "2021"
publish = false

[dependencies]
wgpu = "24"
pollster = "0.3"
bytemuck = { version = "1", features = ["derive"] }
clap = { version = "4", features = ["derive"] }
console = "0.15"
dialoguer = "0.11"
indicatif = "0.17"
serde = { version = "1", features = ["derive"] }
serde_json = "1"
