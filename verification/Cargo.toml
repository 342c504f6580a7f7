[package]
name = "modtagger"
version = "0.1.0"
edition = "2021"
publish = false

[dependencies]
color-eyre = "*"
crossterm = "*"
quick-xml = { version = "*", features = ["serialize"] }
rand = "*"
ratatui = { version = "*", features = ["serde"] }
ron = "*"
serde = { version = "*", features = ["derive"] }
tracing = "*"
tracing-error = "*"
tracing-subscriber = "*"
tui-input = "*"
