[package]
name = "morreel"
version = "0.1.0"
edition = "2021"
publish = false

[dependencies]
serde = { version = "1", features = ["derive"] }
serde_json = "1"
image = { version = "0.25", default-features = false, features = ["png"] }
dioxus = { version = "0.7", default-features = false, features = ["macro", "html", "signals", "hooks", "launch"] }
futures-util = "0.3"
tokio = { version = "1", features = ["rt", "time", "sync", "macros", "process", "fs", "net", "io-util"] }
rfd = { version = "0.15", default-features = false, features = ["xdg-portal", "tokio"] }
