[package]
name = "wayland-display-core"
version = "0.1.0"
edition = "2021"
publish = false

[dependencies]
smithay = { version = "=0.7.0", default-features = false, features = ["backend_drm", "backend_egl"] }
drm = "=0.14.1"
tracing = "=0.1.44"
gstreamer = "=0.24.5"
gstreamer-video = { version = "=0.24.5", features = ["v1_24"] }
kstring = "=2.0.2"
