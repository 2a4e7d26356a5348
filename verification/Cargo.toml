[package]
name = "loopmaster"
version = "0.1.0"
edition = "2021"
publish = false

[dependencies]
async-trait = "=0.1.92"
audiopus = "=0.2.0"
axum = { version = "=0.8.9", features = ["ws"] }
axum-server = { version = "=0.8.0", features = ["tls-rustls"] }
bytes = "=1.12.1"
flume = "=0.12.0"
futures-util = "=0.3.34"
getrandom = "=0.2.17"
if-addrs = "=0.15.0"
mdns-sd = "=0.21.7"
mime_guess = "=2.0.5"
rand = "=0.9.5"
rcgen = { version = "=0.13.2", features = ["x509-parser"] }
rtc = "=0.21.1"
rtrb = "=0.4.1"
rubato = "=0.16.2"
serde = { version = "=1.0.229", features = ["derive"] }
serde_json = "=1.0.154"
sha2 = "=0.10.9"
thiserror = "=2.0.21"
time = "=0.3.55"
tokio = { version = "=1.54.1", features = ["full"] }
uuid = { version = "=1.29.0", features = ["v4"] }
webrtc = "=0.21.1"
windows = { version = "=0.58.0", features = ["Win32_Devices_FunctionDiscovery", "Win32_Devices_Properties", "Win32_Foundation", "Win32_Graphics_Gdi", "Win32_Graphics_GdiPlus", "Win32_Media_Audio", "Win32_Security", "Win32_Storage_FileSystem", "Win32_System_Com", "Win32_System_Com_StructuredStorage", "Win32_System_Threading", "Win32_System_Variant", "Win32_UI_Shell", "Win32_UI_Shell_PropertiesSystem", "Win32_UI_WindowsAndMessaging"] }
windows-core = "=0.58.0"
