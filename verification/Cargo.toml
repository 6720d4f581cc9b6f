[package]
name = "pw_mover"
version = "0.1.0"
edition = "2021"
publish = false

[dependencies]
crossbeam-channel = "*"
tokio = { version = "*", features = ["sync", "rt-multi-thread", "macros", "time", "net"] }
axum = { version = "*", features = ["ws"] }
futures-util = "*"
serde = { version = "*", features = ["derive"] }
serde_json = "*"
quick-xml = { version = "*", features = ["serialize"] }
toml = "*"
tera = { version = "*", default-features = false }
html-escape = "*"
