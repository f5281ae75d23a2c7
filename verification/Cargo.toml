[package]
name = "shoestring-wm"
version = "0.1.0"
edition = "2021"
publish = false

[dependencies]
anyhow = "=1.0.104"
clap = { version = "=4.6.7", features = ["derive"] }
fontdue = "=0.9.5"
libc = "=0.2.191"
notify = "=8.2.1"
regex = "=1.13.1"
rustbus = "=0.19.3"
serde_json = "=1.0.154"
smithay = { version = "=0.7.0", default-features = false, features = ["backend_winit", "desktop", "renderer_gl", "wayland_frontend"] }
toml = "=0.8.23"
tracing = "=0.1.44"
tracing-subscriber = { version = "=0.3.23", features = ["env-filter"] }
xcursor = "=0.3.11"
