[package]
name = "fedorawin"
version = "0.4.0"
edition = "2021"
publish = false

[dependencies]
base64 = "=0.22.1"
png = "=0.17.16"
serde = { version = "=1.0.229", features = ["derive"] }
serde_json = "=1.0.154"
parking_lot = "=0.12.5"
wmi = "=0.18.4"
windows = { version = "=0.62.2", features = ["Devices_Radios", "Foundation_Collections", "Win32_Media_Audio_Endpoints", "Win32_System_Com"] }
