//! The texts that set up the RTSP stream: the GStreamer pipeline that
//! captures the shared device, the mount point, and the address shown to
//! the user.

use vstd::prelude::*;

use crate::text::{contains_str, contains_text};

verus! {

/// The pipeline that captures the monitor of the PulseAudio node `node`
/// and sends it as Vorbis over RTP.
pub open spec fn spec_launch_pipeline(node: Seq<char>) -> Seq<char> {
    "pulsesrc device="@ + node + ".monitor client-name=audio-sharing ! vorbisenc ! rtpvorbispay name=pay0 pt=96"@
}

/// The path under which the stream is mounted.
pub open spec fn spec_mount_path() -> Seq<char> {
    "/audio"@
}

/// The port the RTSP server listens on, in text.
pub open spec fn spec_rtsp_port() -> Seq<char> {
    "8554"@
}

/// The host part of a URL for the IP address `ip`: an IPv6 address (one
/// holding `:`) is put in square brackets, as URLs require.
pub open spec fn spec_url_host(ip: Seq<char>) -> Seq<char> {
    if contains_text(ip, ":"@) {
        "["@ + ip + "]"@
    } else {
        ip
    }
}

/// The address of the stream on the host with IP address `ip`.
pub open spec fn spec_stream_address(ip: Seq<char>) -> Seq<char> {
    "rtsp://"@ + spec_url_host(ip) + ":"@ + spec_rtsp_port() + spec_mount_path()
}

/// The GStreamer launch line for sharing the node `node_name`.
pub fn launch_pipeline(node_name: &str) -> (r: String)
    ensures
        r@ == spec_launch_pipeline(node_name@),
        r@ == "pulsesrc device="@ + node_name@
            + ".monitor client-name=audio-sharing ! vorbisenc ! rtpvorbispay name=pay0 pt=96"@,
{
    let mut s = String::from_str("pulsesrc device=");
    s.append(node_name);
    s.append(".monitor client-name=audio-sharing ! vorbisenc ! rtpvorbispay name=pay0 pt=96");
    s
}

/// The mount point of the stream.
pub fn mount_path() -> (r: &'static str)
    ensures
        r@ == spec_mount_path(),
{
    "/audio"
}

/// The address the stream can be played from, for the host address `ip`
/// (an IPv4 address as it is, an IPv6 address in square brackets).
pub fn stream_address(ip: &str) -> (r: String)
    ensures
        r@ == spec_stream_address(ip@),
        !(exists|i: int| 0 <= i < ip@.len() && #[trigger] ip@[i] == ':') ==> r@ == "rtsp://"@ + ip@
            + ":8554/audio"@,
        (exists|i: int| 0 <= i < ip@.len() && #[trigger] ip@[i] == ':') ==> r@ == "rtsp://["@ + ip@
            + "]:8554/audio"@,
{
    proof {
        lemma_stream_address_exact(ip@);
    }
    let mut s = String::from_str("rtsp://");
    if contains_str(ip, ":") {
        s.append("[");
        s.append(ip);
        s.append("]");
    } else {
        s.append(ip);
    }
    s.append(":");
    s.append("8554");
    s.append(mount_path());
    s
}

/// The message shown when no audio sink is found.
pub fn no_sink_message() -> (r: String)
    ensures
        r@ == "No audio sink found"@,
{
    String::from_str("No audio sink found")
}

/// What to do once the device search is over.
pub enum ServerPlan {
    /// Serve the stream made by `launch`, shared between clients, under
    /// `mount`.
    Stream { launch: String, mount: &'static str },
    /// No device can be shared: show `message` instead.
    NoSink { message: String },
}

/// Decides how the server is set up for the device the search found: with
/// a node name, a shared stream of that node's monitor under the mount
/// point; without one, the error message.
pub fn server_plan(node_name: Option<&str>) -> (r: ServerPlan)
    ensures
        match node_name {
            Some(n) => r matches ServerPlan::Stream { launch, mount } && launch@ == spec_launch_pipeline(n@)
                && mount@ == spec_mount_path(),
            None => r matches ServerPlan::NoSink { message } && message@ == "No audio sink found"@,
        },
{
    match node_name {
        Some(n) => ServerPlan::Stream { launch: launch_pipeline(n), mount: mount_path() },
        None => ServerPlan::NoSink { message: no_sink_message() },
    }
}

/// `ip` holds a colon, as an IPv6 address does.
proof fn lemma_colon_exact(ip: Seq<char>)
    ensures
        contains_text(ip, ":"@) == (exists|i: int| 0 <= i < ip.len() && #[trigger] ip[i] == ':'),
{
    reveal_strlit(":");
    if exists|i: int| 0 <= i < ip.len() && #[trigger] ip[i] == ':' {
        let i = choose|i: int| 0 <= i < ip.len() && #[trigger] ip[i] == ':';
        assert(ip.subrange(i, i + 1) =~= ":"@);
    }
    if contains_text(ip, ":"@) {
        let i = choose|i: int| 0 <= i && i + ":"@.len() <= ip.len() && #[trigger] ip.subrange(i, i + ":"@.len() as int) == ":"@;
        assert(ip.subrange(i, i + 1)[0] == ip[i]);
    }
}

/// The stream address spelled out: `rtsp://`, the whole IP address as the
/// host (in square brackets where it holds a colon), then `:8554/audio`.
pub proof fn lemma_stream_address_exact(ip: Seq<char>)
    ensures
        !(exists|i: int| 0 <= i < ip.len() && #[trigger] ip[i] == ':') ==> spec_stream_address(ip)
            == "rtsp://"@ + ip + ":8554/audio"@,
        (exists|i: int| 0 <= i < ip.len() && #[trigger] ip[i] == ':') ==> spec_stream_address(ip)
            == "rtsp://["@ + ip + "]:8554/audio"@,
{
    lemma_colon_exact(ip);
    reveal_strlit(":");
    reveal_strlit("8554");
    reveal_strlit("/audio");
    reveal_strlit(":8554/audio");
    reveal_strlit("rtsp://");
    reveal_strlit("rtsp://[");
    reveal_strlit("[");
    reveal_strlit("]");
    reveal_strlit("]:8554/audio");
    assert(":"@ + "8554"@ + "/audio"@ =~= ":8554/audio"@);
    if contains_text(ip, ":"@) {
        assert(spec_stream_address(ip) =~= "rtsp://"@ + "["@ + ip + "]"@ + ":"@ + "8554"@ + "/audio"@);
        assert("rtsp://"@ + "["@ + ip + "]"@ + ":"@ + "8554"@ + "/audio"@ =~= "rtsp://["@ + ip
            + "]:8554/audio"@);
    } else {
        assert(spec_stream_address(ip) =~= "rtsp://"@ + ip + ":"@ + "8554"@ + "/audio"@);
        assert("rtsp://"@ + ip + ":"@ + "8554"@ + "/audio"@ =~= "rtsp://"@ + ip + ":8554/audio"@);
    }
}

/// For IP addresses without a colon, two addresses differ only in the host:
/// the address of `b` is that of `a` with the whole of `a` replaced by the
/// whole of `b`, and the host is the IP address itself, whatever its length.
pub proof fn lemma_stream_address_host(a: Seq<char>, b: Seq<char>)
    requires
        !(exists|i: int| 0 <= i < a.len() && #[trigger] a[i] == ':'),
        !(exists|i: int| 0 <= i < b.len() && #[trigger] b[i] == ':'),
    ensures
        spec_stream_address(a).len() == a.len() + 18,
        spec_stream_address(a).subrange(7, 7 + a.len() as int) == a,
        spec_stream_address(b) == spec_stream_address(a).take(7) + b + spec_stream_address(a).skip(
            7 + a.len() as int,
        ),
{
    lemma_stream_address_exact(a);
    lemma_stream_address_exact(b);
    reveal_strlit("rtsp://");
    reveal_strlit(":8554/audio");
    let x = spec_stream_address(a);
    assert(x.subrange(7, 7 + a.len() as int) =~= a);
    assert(x.take(7) =~= "rtsp://"@);
    assert(x.skip(7 + a.len() as int) =~= ":8554/audio"@);
    assert(spec_stream_address(b) =~= x.take(7) + b + x.skip(7 + a.len() as int));
}

/// The launch line spelled out, and how it depends on the node: it starts
/// with `pulsesrc device=`, holds the whole node name, and ends with the
/// same Vorbis-over-RTP tail for every node, so that the line for `b` is the
/// line for `a` with `a` replaced by `b`.
pub proof fn lemma_launch_pipeline_frame(a: Seq<char>, b: Seq<char>)
    ensures
        spec_launch_pipeline(a).take(16) == "pulsesrc device="@,
        spec_launch_pipeline(a).subrange(16, 16 + a.len() as int) == a,
        spec_launch_pipeline(a).skip(16 + a.len() as int)
            == ".monitor client-name=audio-sharing ! vorbisenc ! rtpvorbispay name=pay0 pt=96"@,
        spec_launch_pipeline(b) == spec_launch_pipeline(a).take(16) + b + spec_launch_pipeline(a).skip(
            16 + a.len() as int,
        ),
{
    reveal_strlit("pulsesrc device=");
    let x = spec_launch_pipeline(a);
    let suf = ".monitor client-name=audio-sharing ! vorbisenc ! rtpvorbispay name=pay0 pt=96"@;
    assert(x.take(16) =~= "pulsesrc device="@);
    assert(x.subrange(16, 16 + a.len() as int) =~= a);
    assert(x.skip(16 + a.len() as int) =~= suf);
    assert(spec_launch_pipeline(b) =~= x.take(16) + b + x.skip(16 + a.len() as int));
}

/// The launch line always encodes to Vorbis: `! vorbisenc !` follows the
/// node name, for every node.
pub proof fn lemma_launch_pipeline_encodes(node: Seq<char>)
    ensures
        contains_text(spec_launch_pipeline(node).skip(16 + node.len() as int), " ! vorbisenc ! "@),
{
    lemma_launch_pipeline_frame(node, node);
    let t = ".monitor client-name=audio-sharing ! vorbisenc ! rtpvorbispay name=pay0 pt=96"@;
    reveal_strlit(".monitor client-name=audio-sharing ! vorbisenc ! rtpvorbispay name=pay0 pt=96");
    reveal_strlit(" ! vorbisenc ! ");
    assert(t.subrange(34, 34 + " ! vorbisenc ! "@.len() as int) =~= " ! vorbisenc ! "@);
}

/// The address shown to the user ends with the mount point the stream is
/// served under, so it names the stream that the server offers.
pub proof fn lemma_address_names_mount(ip: Seq<char>)
    ensures
        ({
            let a = spec_stream_address(ip);
            let m = spec_mount_path();
            a.len() >= m.len() && a.subrange(a.len() - m.len(), a.len() as int) == m
        }),
{
    let a = spec_stream_address(ip);
    let m = spec_mount_path();
    let p = "rtsp://"@ + spec_url_host(ip) + ":"@ + spec_rtsp_port();
    assert(a == p + m);
    assert(a.subrange(p.len() as int, a.len() as int) =~= m);
}

/// The pipeline captures the monitor of exactly the node it is given.
pub proof fn lemma_pipeline_captures_node(node: Seq<char>)
    ensures
        contains_text(spec_launch_pipeline(node), node + ".monitor"@),
{
    let l = spec_launch_pipeline(node);
    let pre = "pulsesrc device="@;
    let suf = ".monitor client-name=audio-sharing ! vorbisenc ! rtpvorbispay name=pay0 pt=96"@;
    let pat = node + ".monitor"@;
    reveal_strlit(".monitor client-name=audio-sharing ! vorbisenc ! rtpvorbispay name=pay0 pt=96");
    reveal_strlit(".monitor");
    assert(l == pre + node + suf);
    assert(l.subrange(pre.len() as int, (pre.len() + pat.len()) as int) =~= pat);
}

} // verus!
