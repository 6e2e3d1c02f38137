[package]
name = "audio_sharing"
version = "0.1.0"
edition = "2021"
publish = false

[dependencies]
qrcode = { version = "0.14", default-features = false }
pnet = "0.35"
glib = "0.20"
gtk4 = { version = "0.9", features = ["v4_10"] }
libadwaita = { version = "0.7", features = ["v1_5"] }
gstreamer = "0.23"
gstreamer-rtsp-server = "0.23"
gettext-rs = "0.7"
log = "0.4"
anyhow = "1"
tokio = { version = "1", features = ["rt-multi-thread", "macros", "net"] }
gst-plugin-webrtc-signalling = "0.13"
actix-web = "4"
actix-web-static-files = "4"
actix-ws-proxy = "*"
