[package]
name = "whispering"
version = "0.1.0"
edition = "2021"
publish = false

[dependencies]
crossbeam-channel = "=0.5.17"
num_cpus = "=1.17.0"
webrtc-vad = "=0.4.0"
serde = { version = "=1.0.229", features = ["derive"] }
serde_json = "1"
log = "=0.4.35"
whisper-rs = "=0.16.0"
cpal = "=0.18.2"
enigo = "=0.6.1"
arboard = "=3.7.0"
global-hotkey = "=0.9.0"
