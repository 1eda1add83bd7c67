[package]
name = "mise_tui"
version = "0.1.0"
edition = "2021"
publish = false

[dependencies]
indexmap = { version = "2", features = ["serde"] }
ratatui = "*"
tokio = { version = "1", features = ["full"] }
tokio-util = "*"
clap = { version = "4", features = ["derive"] }
color-eyre = "*"
dirs = "*"
serde = { version = "1", features = ["derive"] }
serde_json = "1"
toml = "*"
sysinfo = "*"
thiserror = "*"
nix = { version = "*", features = ["signal"] }
notify = "*"
notify-debouncer-mini = "*"
