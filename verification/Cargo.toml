[package]
name = "rwaybar"
version = "0.1.0"
edition = "2021"
publish = false

[dependencies]
tokio = { version = "=1.53.2", features = ["rt", "sync", "time", "macros"] }
futures-util = "=0.3.34"
json = "=0.12.4"
log = "=0.4.34"
linked-hash-map = "0.5"
dbus = "=0.9.12"
cairo-rs = "=0.17.10"
pango = "=0.17.10"
pangocairo = "=0.17.10"
smithay-client-toolkit = "=0.16.1"
wayland-client = "=0.28.6"
wayland-protocols = { version = "=0.28.6", features = ["client", "unstable_protocols"] }
