[package]
name = "provisioner"
version = "0.1.0"
edition = "2021"
publish = false

[dependencies]
regex = "1"
bytes = "1"
clap = { version = "3", features = ["derive"] }
clap_complete = "3"
cmd_lib = "1"
color-eyre = "0.6"
fs_extra = "1"
once_cell = "1"
reqwest = { version = "0.11", default-features = false, features = ["blocking", "json", "rustls-tls"] }
serde = { version = "1", features = ["derive"] }
strum = "0.24"
strum_macros = "0.24"
thiserror = "1"
toml = "0.5"
tracing = "0.1"
tracing-subscriber = { version = "0.3", features = ["env-filter"] }
wait-timeout = "0.2"
