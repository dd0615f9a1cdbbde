[package]
name = "hpc_constellation"
version = "0.1.0"
edition = "2021"
publish = false

[dependencies]
serde = { version = "=1.0.229", features = ["derive"] }
serde_json = { version = "=1.0.154", features = ["preserve_order"] }
chrono = "=0.4.45"
sha2 = "=0.10.9"
hex = "=0.4.3"
clap = { version = "=4.6.7", features = ["derive"] }
anyhow = "=1.0.104"
thiserror = "=1.0.69"
walkdir = "=2.5.0"
once_cell = "=1.21.4"
jsonschema = { version = "=0.60.2", default-features = false }
rusqlite = "=0.30.0"
axum = "=0.7.9"
tokio = { version = "=1.54.1", features = ["macros", "rt-multi-thread", "net"] }
sqlx = { version = "=0.7.4", default-features = false, features = ["sqlite", "runtime-tokio", "macros"] }
wasm-bindgen = "=0.2.130"
wee_alloc = "=0.4.5"
