[package]
name = "feline"
version = "0.1.0"
edition = "2021"
publish = false

[dependencies]
colored = "*"
log = "*"
anyhow = "*"
dotenvy = "*"
egui = "*"
egui-wgpu = "*"
egui-winit = { version = "*", default-features = false, features = ["x11"] }
wgpu = { version = "*", default-features = false, features = ["std", "wgsl", "vulkan", "dx12", "metal"] }
winit = { version = "*", default-features = false, features = ["x11", "rwh_06"] }
tokio = { version = "*", features = ["rt-multi-thread"] }
windows-sys = { version = "*", features = ["Win32_Foundation", "Win32_UI_WindowsAndMessaging"] }
