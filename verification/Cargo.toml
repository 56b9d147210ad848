[package]
name = "aerowm"
version = "0.1.0"
edition = "2021"
publish = false

[dependencies]
serde = { version = "1", features = ["derive"] }
serde_json = "1"
mlua = { version = "0.10", features = ["luau"] }
log = "0.4"
dirs = "6"
clap = { version = "4", features = ["derive"] }
chrono = "0.4"
embedded-graphics = "0.8"
rustix = { version = "1", features = ["fs"] }
tracing = "0.1"
tracing-subscriber = "0.3"
env_logger = "0.11"
calloop = "0.14"
calloop-wayland-source = "0.4"
smithay = { version = "0.7", default-features = false, features = ["wayland_frontend", "desktop", "backend_winit", "backend_udev", "backend_drm", "backend_gbm", "backend_libinput", "backend_session_libseat", "renderer_gl", "xwayland"] }
smithay-client-toolkit = "0.20"
wayland-client = "0.31"
wayland-server = "0.31"
xkbcommon = "0.8"
image = { version = "0.25", default-features = false, features = ["png"] }
