[package]
name = "betrayer"
version = "0.1.0"
edition = "2021"
publish = false

[dependencies]
png = "0.17"
zbus = "4"
parking_lot = "0.12"
flume = "0.11"
futures-util = "0.3"
async-io = "2"
log = "0.4"
windows-sys = { version = "0.59", features = ["Win32_Foundation", "Win32_UI_Shell", "Win32_UI_WindowsAndMessaging", "Win32_System_SystemServices"] }
windows-result = "0.2"
objc2 = "0.5"
icrate = "0.1"
block2 = "0.4"
