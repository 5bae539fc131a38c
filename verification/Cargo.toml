[package]
name = "ossa_cookbook"
version = "0.1.0"
edition = "2021"
publish = false

[dependencies]
ossa-crdt = "=0.0.1"
ossa-core = "=0.0.1"
serde = { version = "=1.0.229", features = ["derive"] }
clap = { version = "=4.6.7", features = ["derive"] }
tracing = "=0.1.44"
tracing-subscriber = "0.3"
dioxus = { version = "0.6", default-features = false, features = ["macro", "html", "hooks", "signals"] }
dioxus-heroicons = "0.4"
dioxus-markdown = "=0.0.1"
keyboard-types = "0.7"
futures = "=0.3.34"
