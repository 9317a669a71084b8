[package]
name = "ddc_winapi"
version = "0.3.0"
edition = "2021"
publish = false

[dependencies]
bitflags = "1"
ddc = "*"
widestring = "1"
windows = { version = "0.48", features = ["Win32_Foundation", "Win32_Devices_Display", "Win32_Devices_DeviceAndDriverInstallation", "Win32_Devices_Properties", "Win32_Graphics_Gdi", "Win32_System_Registry", "Win32_System_Time"] }
