[package]
name = "automerge_bot"
version = "0.1.0"
edition = "2021"
publish = false

[dependencies]
glob = "=0.3.4"
smallbitvec = "=2.6.1"
base64 = "=0.22.1"
hmac = "=0.13.0"
sha2 = "=0.11.1"
ctutils = "=0.4.8"
serde = { version = "=1.0.229", features = ["derive"] }
toml = "=1.1.8"
yaml_serde = "=0.10.7"
octocrab = "=0.44.1"
axum = "=0.8.9"
tokio = { version = "=1.54.1", features = ["full"] }
reqwest = "=0.13.5"
bytes = "=1.12.1"
futures = "=0.3.34"
tracing = "=0.1.44"
tracing-subscriber = "=0.3.23"
jsonwebtoken = "=9.3.1"
graphql_client = "=0.16.0"
cloneable_errors = "=3.0.0"
