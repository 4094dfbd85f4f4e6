[package]
name = "wasmer_borealis"
version = "0.1.0"
edition = "2021"
publish = false

[dependencies]
url = "*"
serde = { version = "*", features = ["derive"] }
serde_json = "*"
tokio = { version = "*", features = ["full"] }
reqwest = { version = "*", default-features = false, features = ["json"] }
futures = "*"
clap = { version = "*", features = ["derive", "env"] }
clap-verbosity-flag = "*"
anyhow = "*"
tracing = "*"
tracing-subscriber = { version = "*", features = ["env-filter"] }
directories = "*"
once_cell = "*"
uuid = { version = "*", features = ["v4"] }
tempfile = "*"
minijinja = "*"
open = "*"
indexmap = { version = "*", features = ["serde"] }
semver = { version = "*", features = ["serde"] }

[dev-dependencies]
shellexpand = "*"
