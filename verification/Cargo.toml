[package]
name = "ldtk_model"
version = "0.1.0"
edition = "2021"
publish = false

[dependencies]
serde_json = "*"
clap = { version = "*", features = ["derive"] }
anyhow = "*"
codegen = "*"
convert_case = "*"
itertools = "*"
