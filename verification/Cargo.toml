[package]
name = "winusers"
version = "0.1.0"
edition = "2021"
publish = false

[dependencies]
winapi = { version = "=0.3.9", features = ["lmaccess", "lmapibuf", "lmcons", "minwindef", "ntdef", "ntlsa", "ntstatus", "winerror", "winnt", "securitybaseapi", "winbase"] }
windows = { version = "=0.52.0", features = ["Win32_Foundation", "Win32_System_Registry"] }
