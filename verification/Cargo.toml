[package]
name = "stormcastrs"
version = "0.1.0"
edition = "2021"
rust-version = "1.95"
publish = false

[dependencies]
prometheus = "=0.14.0"
serde_urlencoded = "=0.7.1"
ntex = { version = "=3.12.3", features = ["tokio"] }
# The server takes any ntex-httparse from 2.1 on; from 2.3 on it asks for a
# newer compiler than rust-version, so the release is held here.
ntex-httparse = "=2.1.0"
once_cell = "=1.21.4"
thiserror = "=2.0.21"
tracing = "=0.1.44"
tracing-subscriber = { version = "=0.3.23", features = ["env-filter"] }
