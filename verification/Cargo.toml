[package]
name = "virtual_desktop_manager"
version = "0.1.0"
edition = "2021"
publish = false

[dependencies]
muldiv = "=1.0.1"
tracing = "=0.1.44"
serde = { version = "=1.0.229", features = ["derive"] }
serde_json = "=1.0.154"
native-windows-gui = { version = "=1.0.13", default-features = false }
clap = { version = "4", features = ["derive"] }
tracing-subscriber = "0.3"
tracing-log = "0.2"
serde_path_to_error = "0.1"
runas = "1"
image = { version = "0.25", default-features = false, features = ["png", "ico"] }
imageproc = { version = "0.25", default-features = false }
ab_glyph = "0.2"
text-to-png = "0.2"
