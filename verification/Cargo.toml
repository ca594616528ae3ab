[package]
name = "transfer_stats"
version = "0.1.0"
edition = "2021"
publish = false

[dependencies]
rand = "0.8"
anyhow = "1"
async-trait = "0.1"
clickhouse = "0.13"
dotenv = "0.15"
once_cell = "1"
serde = { version = "1", features = ["derive"] }
tokio = { version = "1", features = ["macros", "rt-multi-thread"] }
