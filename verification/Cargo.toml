[package]
name = "overlay"
version = "0.1.0"
edition = "2021"
publish = false

[dependencies]
copypasta = "=0.8.2"
imgui = "=0.11.0"
imgui-winit-support = "=0.11.0"
log = "=0.4.34"
obfstr = "=0.4.6"
windows = { version = "=0.48.0", features = ["Win32_Foundation", "Win32_Graphics_Dwm", "Win32_Graphics_Gdi", "Win32_UI_Input_KeyboardAndMouse", "Win32_UI_WindowsAndMessaging"] }
winit = { version = "=0.27.5", default-features = false, features = ["wayland", "wayland-dlopen"] }
