[package]
name = "modrepo"
version = "0.1.0"
edition = "2021"
publish = false

[dependencies]
chrono = { version = "0.4", features = ["serde"] }
color-eyre = "0.6"
envy = "0.4"
eyre = "0.6"
futures-util = "0.3"
jsonwebtoken = "9"
oauth2 = "4"
object_store = { version = "0.11", features = ["aws"] }
once_cell = "1"
poem = { version = "3", features = ["embed", "tempfile"] }
quick-xml = { version = "0.37", features = ["serialize"] }
reqwest = "0.12"
rust-embed = "8"
serde = { version = "1", features = ["derive"] }
serde_json = { version = "1", features = ["preserve_order"] }
tokio = { version = "1", features = ["macros", "rt-multi-thread", "fs", "io-util"] }
tracing = "0.1"
tracing-error = "0.2"
tracing-subscriber = { version = "0.3", features = ["env-filter"] }
twox-hash = "2"
url = { version = "2", features = ["serde"] }
uuid = { version = "1", features = ["v5", "serde"] }
