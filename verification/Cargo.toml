[package]
name = "wol"
version = "0.1.0"
edition = "2021"
publish = false

[dependencies]
macaddr = { version = "1", default-features = false, features = ["std"] }
clap = { version = "4", features = ["derive"] }
clap_complete = "4"
clap_mangen = "0.2"
