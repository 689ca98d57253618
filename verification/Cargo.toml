[package]
name = "issen"
version = "0.1.0"
edition = "2021"
publish = false

[dependencies]
regex = "=1.13.1"
unicode-segmentation = "=1.13.3"
serde = { version = "=1.0.229", features = ["derive"] }
toml = "=0.8.23"
futures = "=0.3.34"
abi_stable = "=0.11.3"
arboard = { version = "=3.7.0", default-features = false }
raw-window-handle = "=0.6.2"
libloading = "=0.8.9"
tray-icon = { version = "*", default-features = false }
rfd = { version = "*", default-features = false }
windows = { version = "0.61", features = ["Win32_Foundation", "Win32_Globalization", "Win32_Graphics_Gdi", "Win32_Storage_EnhancedStorage", "Win32_System_Com", "Win32_System_Com_StructuredStorage", "Win32_System_LibraryLoader", "Win32_System_Threading", "Win32_UI_Input_KeyboardAndMouse", "Win32_UI_Shell", "Win32_UI_Shell_PropertiesSystem", "Win32_UI_WindowsAndMessaging"] }
