[package]
name = "workplaces"
version = "0.1.0"
edition = "2021"
publish = false

[dependencies]
id_tree = "1.8"
serde = { version = "1", features = ["derive"] }
serde_yaml = "0.9"
tokio = { version = "1", features = ["rt-multi-thread", "macros", "sync", "time"] }
clap = { version = "4", features = ["derive"] }
bincode = "1"
once_cell = "1"
futures = "0.3"
anyhow = "1"
ddc-hi = "0.4"
wayland-client = "0.31"
wayland-protocols-wlr = { version = "0.2", features = ["client"] }
