[package]
name = "zenops"
version = "0.1.0"
edition = "2021"
publish = false

[dependencies]
relative-path = "=2.0.3"
similar = "=3.2.1"
regex = "=1.13.1"
toml_edit = "=0.25.17"
indexmap = { version = "=2.14.2", features = ["serde"] }
smol_str = "=0.3.7"
serde = { version = "=1.0.229", features = ["derive"] }
serde_json = "=1.0.154"
thiserror = "=2.0.21"
toml = "=1.1.8"
clap = { version = "=4.6.7", features = ["derive"] }
clap_complete = "=4.6.11"
env_logger = "=0.11.11"
home = "=0.5.12"
log = "=0.4.35"
rustyline = "=19.0.0"
xshell = "=0.2.7"
schemars = { version = "=1.2.3", features = ["indexmap2"] }
