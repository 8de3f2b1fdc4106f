[package]
name = "occ_raycasting"
version = "0.1.0"
edition = "2021"
publish = false

[dependencies]
bincode = "1"
cad_import = "*"
clap = { version = "4", features = ["derive"] }
glob = "*"
log = "*"
nalgebra-glm = "*"
pretty_env_logger = "*"
serde = { version = "1", features = ["derive"] }
serde_yaml = "*"
thiserror = "*"
