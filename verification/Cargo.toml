[package]
name = "excel_img"
version = "0.1.0"
edition = "2021"
publish = false

[dependencies]
anyhow = "1"
calamine = "*"
clap = { version = "4", features = ["derive"] }
reqwest = { version = "*", default-features = false }
tokio = { version = "1", features = ["fs", "io-util", "macros", "rt-multi-thread"] }
