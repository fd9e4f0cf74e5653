[package]
name = "tx_analyzer"
version = "0.1.0"
edition = "2021"
publish = false

[dependencies]
petgraph = "0.6"
ethers = { version = "2", default-features = false }
clap = { version = "4", features = ["derive"] }
tokio = { version = "1", features = ["macros", "rt-multi-thread"] }
crossterm = "0.25"
tui = "0.19"
