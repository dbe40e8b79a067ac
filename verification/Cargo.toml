[package]
name = "simplebar"
version = "0.1.0"
edition = "2021"
publish = false

[dependencies]
chrono = "0.4"
zbus = "*"
tokio = { version = "1", features = ["full"] }
hyprland = "*"
futures-util = "0.3"
sysinfo = "*"
