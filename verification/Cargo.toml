[package]
name = "kat_datasource"
version = "0.1.0"
edition = "2021"
publish = false

[dependencies]
heck = "=0.5.0"
prost = "=0.14.4"
anyhow = "=1.0.104"
thiserror = "=2.0.21"
serde = { version = "=1.0.229", features = ["derive"] }
serde_json = "=1.0.154"
arrow-array = "=60.1.0"
arrow-schema = "=60.1.0"
parquet = { version = "=60.1.0", default-features = false, features = ["arrow"] }
tempfile = "=3.27.0"
dunce = "=1.0.5"
rustix = { version = "=1.1.6", features = ["fs"] }
directories = "=6.0.0"
rusqlite = { version = "*", features = ["bundled"] }
