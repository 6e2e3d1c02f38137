use audio_sharing::device::{choose_device, AudioDevice, DeviceChoice};

fn dev(class: &str, props: bool, default: Option<bool>) -> AudioDevice {
    AudioDevice { device_class: class.to_string(), has_properties: props, is_default: default }
}

fn choice(devices: &Vec<AudioDevice>) -> String {
    match choose_device(devices) {
        DeviceChoice::Use(i) => format!("use {}", i),
        DeviceChoice::NoProperties(i) => format!("stop {}", i),
        DeviceChoice::NotFound => "none".to_string(),
    }
}

#[test]
fn default_sink_is_chosen() {
    let devices = vec![
        dev("Audio/Source", true, Some(true)),
        dev("Audio/Sink", true, Some(false)),
        dev("Audio/Sink", true, None),
        dev("Audio/Sink", true, Some(true)),
        dev("Audio/Sink", true, Some(true)),
    ];
    assert_eq!(choice(&devices), "use 3");
}

#[test]
fn device_without_properties_ends_the_search() {
    let devices = vec![dev("Audio/Source", false, None), dev("Audio/Sink", true, Some(true))];
    assert_eq!(choice(&devices), "stop 0");
}

#[test]
fn no_default_sink_is_not_found() {
    let devices = vec![dev("Audio/Sink", true, Some(false)), dev("Audio/Sinks", true, Some(true))];
    assert_eq!(choice(&devices), "none");
    assert_eq!(choice(&Vec::new()), "none");
}
