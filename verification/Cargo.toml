[package]
name = "gymtracker"
version = "1.0.0"
edition = "2021"
publish = false

[dependencies]
anyhow = "1"
bonsaidb = { version = "0.5", features = ["local"] }
clap = { version = "4", features = ["derive"] }
prettytable = "0.10"
serde = { version = "1", features = ["derive"] }
