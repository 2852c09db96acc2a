[package]
name = "wrinkle"
version = "0.1.0"
edition = "2021"
publish = false

[dependencies]
arc-swap = "=1.9.2"
directories = "=6.0.0"
env_logger = "=0.11.11"
futures = "=0.3.34"
futures-channel = "=0.3.34"
log = "=0.4.34"
widestring = "=1.2.1"
windows = { version = "=0.61.3", features = ["Win32_Foundation", "Win32_Graphics_Gdi", "Win32_System_LibraryLoader", "Win32_UI_Input", "Win32_UI_WindowsAndMessaging"] }
