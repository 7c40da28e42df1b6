[package]
name = "wayland_io"
version = "0.1.0"
edition = "2021"
publish = false

[dependencies]
rustix = { version = "1", features = ["fs", "net"] }
thiserror = "2"
tokio = { version = "1", features = ["net"] }
