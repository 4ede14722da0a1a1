[package]
name = "tika"
version = "1.0.0"
edition = "2021"
publish = false

[dependencies]
chrono = "0.4"
clap = "2"
color-eyre = "0.5"
eyre = "0.6"
frontmatter = "0.4"
glob = "0.3"
rand = "0.8"
serde = { version = "1", features = ["derive"] }
serde_json = "1"
serde_yaml = "0.8"
shellexpand = "2"
termion = "1.5"
toml = "0.5"
tui = { version = "0.16", default-features = false, features = ["termion"] }
unicode-width = "0.1"
xapian-rusty = "*"
yaml-rust = "0.4"

[dev-dependencies]
nom = "7"
nom_locate = "4"
