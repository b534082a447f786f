[package]
name = "worktrunk"
version = "0.1.0"
edition = "2021"
publish = false

[dependencies]
unicode-width = "=0.1.11"
shell-escape = "0.1"
anstyle = "1"
clap = { version = "4", features = ["derive"] }
clap_complete = "4"
crossbeam-channel = "0.5"
log = "0.4"
rayon = "1"
serde = { version = "1", features = ["derive"] }
serde_json = "1"
skim = "*"
termimad = "*"
terminal_size = "*"
