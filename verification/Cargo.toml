[package]
name = "nao"
version = "0.1.0"
edition = "2021"
publish = false

[dependencies]
kdl = "=6.7.1"
miette = { version = "=7.6.0", features = ["fancy-no-backtrace"] }
time = "=0.3.55"
serde = { version = "=1.0.229", features = ["derive"] }
serde_json = "=1.0.154"
xflags = "=0.3.2"
crossterm = "=0.28.1"
ratatui = "=0.29.0"
tui-scrollview = "0.5"
ignore = "0.4"
