[package]
name = "conda_mirror"
version = "0.1.0"
edition = "2021"
publish = false

[dependencies]
glob = "=0.3.4"
sha2 = "=0.11.0"
rattler_conda_types = "=0.56.2"
rattler_digest = "=2.1.0"
serde = { version = "*", features = ["derive"] }
serde_json = "*"
serde_yml = "*"
url = "*"
miette = "*"
clap = { version = "*", features = ["derive", "env"] }
clap-verbosity-flag = "*"
tokio = { version = "*", features = ["macros", "rt-multi-thread", "fs", "io-util", "sync"] }
futures = "*"
opendal = { version = "=0.59.4", default-features = false, features = ["services-fs", "services-s3", "layers-retry"] }
reqwest-middleware = "*"
reqwest-retry = "*"
rattler_networking = { version = "=0.33.1", default-features = false }
indicatif = "*"
console = "*"
tracing = "*"
tracing-subscriber = "*"
