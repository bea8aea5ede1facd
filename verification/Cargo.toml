[package]
name = "soul_listener"
version = "0.1.0"
edition = "2021"
publish = false

[dependencies]
heapless = "=0.8.0"
embedded-graphics = "=0.8.2"
serde = { version = "=1.0.229", features = ["derive"] }
serde_json = "=1.0.154"
tokio = { version = "=1.54.1", features = ["time"] }
image = { version = "=0.25.10", default-features = false, features = ["png"] }
winit = "=0.30.13"
softbuffer = "=0.4.8"
windows-sys = { version = "=0.52.0", features = ["Win32_Foundation", "Win32_UI_HiDpi", "Win32_UI_WindowsAndMessaging"] }
