[package]
name = "blackbox"
version = "0.1.0"
edition = "2021"
publish = false

[dependencies]
chrono = { version = "=0.4.45", default-features = false, features = ["std", "now"] }
fs_extra = "=1.3.0"
gstreamer = "=0.22.8"
gstreamer-app = "=0.22.6"
log = "=0.4.35"
notify = { version = "=6.1.1", default-features = false }
simplelog = "=0.12.2"
sysinfo = { version = "=0.30.13", default-features = false }
time = { version = "=0.3.55", default-features = false, features = ["macros"] }
tokio = { version = "=1.54.1", default-features = false, features = ["sync"] }
