[package]
name = "sudo_askpass"
version = "0.1.0"
edition = "2021"
publish = false

[dependencies]
ansi-escapes = "*"
clap = { version = "*", features = ["derive"] }
colored = "*"
inquire = "*"
read_char = "*"
serde = { version = "*", features = ["derive"] }
serde_yaml = "*"
termios = "*"
xdg = "*"
