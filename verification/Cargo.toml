[package]
name = "flasher"
version = "0.1.0"
edition = "2021"
publish = false

[dependencies]
anyhow = "1"
async-compression = { version = "*", features = ["futures-io", "zstd"] }
bmap-parser = "*"
clap = { version = "4", features = ["derive"] }
crossterm = { version = "*", features = ["event-stream"] }
futures = "0.3"
ratatui = "*"
rustix = { version = "*", features = ["termios", "std"] }
tokio = { version = "1", features = ["full"] }
tokio-util = { version = "*", features = ["compat"] }
tracing = "0.1"
tracing-subscriber = "0.3"
tui-logger = { version = "*", features = ["tracing-support"] }
zbus_systemd = { version = "*", features = ["systemd1"] }
