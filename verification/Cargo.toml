[package]
name = "drcom-campus"
version = "0.1.0"
edition = "2021"
publish = false

[dependencies]
base64 = "0.22"
clipboard-win = "5"
serde = { version = "1", features = ["derive"] }
serde_json = "1"
slint = { version = "1", default-features = false, features = ["compat-1-2", "std"] }
windows-sys = { version = "*", features = ["Win32_Foundation", "Win32_Globalization", "Win32_NetworkManagement_IpHelper", "Win32_NetworkManagement_Ndis", "Win32_Networking_WinSock", "Win32_Security_Cryptography", "Win32_Storage_FileSystem", "Win32_System_Registry", "Win32_System_SystemInformation"] }
