[package]
name = "oracles"
version = "0.1.0"
edition = "2021"
publish = false

[dependencies]
anyhow = "1"
async-trait = "0.1"
chrono = "0.4"
clap = { version = "4", features = ["derive"] }
dotenv = "0.15"
futures = "0.3"
futures-util = "0.3"
helium-crypto = "0.6"
metrics = "0.20"
retainer = "0.3"
serde = { version = "1", features = ["derive"] }
sqlx = { version = "0.6", default-features = false, features = ["postgres", "uuid", "chrono", "macros", "runtime-tokio-rustls"] }
thiserror = "1"
tokio = { version = "1", features = ["full"] }
tonic = "0.8"
tracing = "0.1"
tracing-subscriber = { version = "0.3", features = ["env-filter"] }
triggered = "0.1"
