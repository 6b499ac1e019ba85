[package]
name = "dock_shell"
version = "0.1.0"
edition = "2021"
publish = false

[dependencies]
async-trait = "=0.1.92"
futures = "=0.3.34"
gio = "=0.9.1"
glib = "=0.10.3"
iced_core = "=0.3.0"
iced_graphics = "=0.1.0"
iced_native = "=0.3.0"
iced_wgpu = "=0.3.0"
raw-window-handle = "=0.3.4"
smithay-client-toolkit = "=0.12.3"
