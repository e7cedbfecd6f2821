[package]
name = "silocut"
version = "1.5.0"
edition = "2021"
publish = false

[dependencies]
openh264 = "0.9"
image = { version = "0.25", default-features = false, features = ["png", "jpeg"] }
rayon = "1.12"
mp4e = "1.0"
symphonia = { version = "0.6", default-features = false, features = ["isomp4", "mkv", "wav", "pcm", "mp3", "aac"] }
symphonia-core = "0.6"
serde = { version = "1", features = ["derive"] }
eframe = { version = "0.34", default-features = false, features = ["glow", "default_fonts", "x11"] }
egui = "0.34"
rfd = { version = "0.15", default-features = false, features = ["xdg-portal", "tokio"] }
windows-sys = { version = "0.52", features = ["Win32_Foundation", "Win32_Graphics_Gdi", "Win32_UI_WindowsAndMessaging"] }
