[package]
name = "aaoffline"
version = "0.1.0"
edition = "2021"
publish = false

[dependencies]
anyhow = "1"
async-trait = "0.1"
base64 = "0.22"
bytes = "1"
chrono = { version = "0.4", features = ["serde"] }
clap = { version = "4", features = ["derive"] }
clap-verbosity-flag = "*"
colored = "*"
dialoguer = "*"
env_logger = "*"
futures = "0.3"
human-panic = "*"
indicatif = "*"
infer = "*"
itertools = "*"
log = "0.4"
mime2ext = "*"
regex = "1"
reqwest = { version = "0.12", default-features = false, features = ["rustls-tls"] }
reqwest-middleware = "0.4"
reqwest-retry = "0.7"
sanitize-filename = "*"
serde = { version = "1", features = ["derive"] }
serde_json = "1"
serde_with = "3"
tokio = { version = "1", features = ["fs", "macros", "rt-multi-thread"] }
urlencoding = "2"
