[package]
name = "dioxus-components"
version = "0.1.0"
edition = "2021"
publish = false

[dependencies]
dioxus = { version = "=0.7.10", default-features = false, features = ["macro", "html", "signals", "hooks", "document", "router"] }
dioxus-sdk-time = "=0.7.0"
dioxus-i18n = "*"
strum = { version = "=0.27.2", features = ["derive"] }
unic-langid = { version = "=0.9.6", features = ["macros"] }
tracing = "=0.1.44"
