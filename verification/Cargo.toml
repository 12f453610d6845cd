[package]
name = "aster_drive"
version = "0.1.0"
edition = "2021"
publish = false

[dependencies]
async-trait = "=0.1.92"
base64 = "=0.22.1"
chrono = "=0.4.45"
md-5 = "=0.10.6"
reqwest = { version = "=0.12.28", default-features = false }

[dev-dependencies]
xmltree = "=0.12.0"
