use audio_sharing::about::{metainfo_path, version_label};
use audio_sharing::server::{
    launch_pipeline, mount_path, no_sink_message, server_plan, stream_address, ServerPlan,
};
use audio_sharing::text::{contains_str, str_eq};

#[test]
fn launch_pipeline_captures_the_monitor() {
    assert_eq!(
        launch_pipeline("alsa_output.pci-0000_00_1f.3.analog-stereo"),
        "pulsesrc device=alsa_output.pci-0000_00_1f.3.analog-stereo.monitor client-name=audio-sharing ! vorbisenc ! rtpvorbispay name=pay0 pt=96"
    );
}

#[test]
fn stream_address_names_port_and_mount() {
    assert_eq!(stream_address("192.168.1.20"), "rtsp://192.168.1.20:8554/audio");
    assert_eq!(stream_address("0.0.0.0"), "rtsp://0.0.0.0:8554/audio");
    assert_eq!(stream_address("fe80::1"), "rtsp://[fe80::1]:8554/audio");
    assert_eq!(stream_address("fd00::5"), "rtsp://[fd00::5]:8554/audio");
    assert!(stream_address("fe80::1").ends_with(mount_path()));
    assert!(stream_address("10.0.0.1").ends_with(mount_path()));
    assert_eq!(mount_path(), "/audio");
}

#[test]
fn server_plan_with_and_without_device() {
    match server_plan(Some("sink")) {
        ServerPlan::Stream { launch, mount } => {
            assert_eq!(launch, launch_pipeline("sink"));
            assert_eq!(mount, "/audio");
        }
        ServerPlan::NoSink { .. } => panic!("a device was found"),
    }
    match server_plan(None) {
        ServerPlan::NoSink { message } => assert_eq!(message, "No audio sink found"),
        ServerPlan::Stream { .. } => panic!("no device was found"),
    }
    assert_eq!(no_sink_message(), "No audio sink found");
}

#[test]
fn version_label_in_development_and_release() {
    assert_eq!(version_label("development", "1.2.3", "abc123"), "1.2.3-abc123 (devel)");
    assert_eq!(version_label("default", "1.2.3", "abc123"), "1.2.3");
    assert_eq!(version_label("developmen", "1.2.3", "x"), "1.2.3");
}

#[test]
fn metainfo_path_under_resource_base() {
    assert_eq!(metainfo_path("/de/haeckerfelix/AudioSharing"), "/de/haeckerfelix/AudioSharing/metainfo.xml");
}

#[test]
fn string_helpers() {
    assert!(str_eq("Audio/Sink", "Audio/Sink"));
    assert!(!str_eq("Audio/Sink", "Audio/Sin"));
    assert!(contains_str("virbr0", "virbr"));
    assert!(contains_str("abc", ""));
    assert!(!contains_str("vir", "virbr"));
    assert!(contains_str("héllo wörld", "ö"));
}
