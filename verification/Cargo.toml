[package]
name = "superbank"
version = "0.1.0"
edition = "2021"
publish = false

[dependencies]
anyhow = "1"
arrow-array = "*"
arrow-json = "*"
arrow-schema = "*"
axum = { version = "0.8", default-features = false, features = ["tokio", "http1", "json"] }
bs58 = "0.5"
ch_cityhash102 = "0.1"
chrono = { version = "0.4", default-features = false, features = ["std"] }
clap = { version = "4", default-features = false, features = ["derive", "std", "help", "usage", "error-context"] }
clickhouse = { version = "*", default-features = false, features = ["lz4"] }
clickhouse-rs = { version = "1.1.0-alpha.1", default-features = false, features = ["tokio_io"] }
futures-util = { version = "0.3", default-features = false, features = ["std"] }
hex = "0.4"
moka = { version = "*", default-features = false, features = ["future"] }
object_store = { version = "*", default-features = false, features = ["aws"] }
parquet = { version = "*", default-features = false, features = ["arrow", "snap", "zstd"] }
reqwest = { version = "*", default-features = false }
serde = { version = "1", features = ["derive"] }
serde_json = "1"
serde_yaml = "*"
solana-clock = { version = "3", default-features = false }
solana-epoch-rewards-hasher = "3"
solana-hash = "3"
solana-pubkey = "3"
tokio = { version = "1", features = ["macros", "rt-multi-thread", "net", "time", "sync", "fs", "signal"] }
tracing = { version = "0.1", default-features = false, features = ["std"] }
tracing-subscriber = { version = "0.3", default-features = false, features = ["fmt", "env-filter"] }
