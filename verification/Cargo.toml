[package]
name = "youtuibe"
version = "0.1.0"
edition = "2021"
publish = false

[dependencies]
shell-words = "*"
url = "*"
anyhow = "*"
chrono = { version = "*", features = ["serde"] }
clap = { version = "*", features = ["derive"] }
crossterm = { version = "*", features = ["event-stream"] }
directories = "*"
futures = "*"
image = { version = "*", default-features = false, features = ["png", "jpeg"] }
libc = "*"
md5 = "*"
png = "*"
ratatui = "*"
ratatui-image = { version = "*", default-features = false, features = ["crossterm"] }
reqwest = { version = "*", default-features = false }
serde = { version = "*", features = ["derive"] }
serde_json = "*"
tokio = { version = "*", features = ["full"] }
unicode-width = "*"
uuid = { version = "*", features = ["v4", "serde"] }
