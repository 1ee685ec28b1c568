[package]
name = "data_harvester"
version = "0.1.0"
edition = "2021"
publish = false

[dependencies]
anyhow = "1"
futures = "0.3"
hashbrown = "*"
heim = { version = "0.1.0-rc.1", default-features = false, features = ["memory"] }
nvml-wrapper = "*"
once_cell = "1"
rustix = { version = "*", features = ["param"] }
smol = "*"
sysctl = "*"
sysinfo = { version = "*", default-features = false, features = ["system"] }
