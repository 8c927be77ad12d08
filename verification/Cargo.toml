[package]
name = "wlrix_compositor"
version = "0.1.0"
edition = "2021"
publish = false

[dependencies]
libc = "0.2"
serde = { version = "1", features = ["derive"] }
smithay = { version = "*", default-features = false, features = ["wayland_frontend", "desktop", "xwayland", "renderer_gl"] }
toml = "*"
tracing = "0.1"
tracing-subscriber = { version = "0.3", features = ["env-filter"] }
wayland-server = "0.31"
wayland-scanner = "0.31"
