# audio_sharing

The verified core of Audio Sharing, a GNOME application that shares the
current audio playback as an RTSP stream and shows its address as text and
as a QR code.

- `src/qr.rs`: the QR code of the stream address. The `qrcode` crate encodes
  and renders the text; the library reads the grid of cells from it and
  proves it square, with a cell dark exactly where a dark module was drawn.
- `src/network.rs`: the IP address the stream is announced on.
- `src/device.rs`: which audio device is shared (the default audio sink).
- `src/server.rs`: the GStreamer pipeline, mount point and stream address.
- `src/about.rs`: the texts of the about dialog.
- `src/text.rs`: character and string helpers.
- `app/`: the GTK application, the RTSP server, the device monitor, the
  network interface list and the WebRTC signalling and web servers, which
  hand plain values to the library.
