//! Verified core of Audio Sharing: the QR code grid shown next to the stream
//! address, the choice of network address and audio device, and the texts
//! that configure the RTSP stream and the about dialog.

pub mod about;
pub mod device;
pub mod network;
pub mod qr;
pub mod server;
pub mod text;
