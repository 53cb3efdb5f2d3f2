[package]
name = "ocaast"
version = "0.1.0"
edition = "2021"
publish = false

[dependencies]
indexmap = "2"
said = "0.5"
pest = "2"
pest_derive = "2"
serde = { version = "1", features = ["derive"] }
serde_json = "1"
clap = { version = "4", features = ["derive"] }
env_logger = "0.11"
log = "0.4"
thiserror = "1"
strum_macros = "0.26"
