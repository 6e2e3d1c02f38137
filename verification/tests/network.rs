use audio_sharing::network::{default_interface, get_ip_addr, is_usable, NetworkInterface};

fn iface(name: &str, up: bool, loopback: bool, ips: &[&str]) -> NetworkInterface {
    NetworkInterface {
        name: name.to_string(),
        is_up: up,
        is_loopback: loopback,
        ips: ips.iter().map(|s| s.to_string()).collect(),
    }
}

#[test]
fn first_usable_interface_gives_the_address() {
    let interfaces = vec![
        iface("lo", true, true, &["127.0.0.1"]),
        iface("virbr0", true, false, &["192.168.122.1"]),
        iface("eth0", false, false, &["10.0.0.2"]),
        iface("wlan0", true, false, &["192.168.1.20", "fe80::1"]),
        iface("eth1", true, false, &["10.1.1.1"]),
    ];
    assert_eq!(default_interface(&interfaces), Some(3));
    assert_eq!(get_ip_addr(&interfaces), "192.168.1.20");
}

#[test]
fn interface_without_address_is_skipped() {
    let interfaces = vec![iface("eth0", true, false, &[]), iface("eth1", true, false, &["fd00::5"])];
    assert_eq!(get_ip_addr(&interfaces), "fd00::5");
}

#[test]
fn no_usable_interface_gives_unspecified_address() {
    let interfaces = vec![
        iface("lo", true, true, &["127.0.0.1"]),
        iface("my-virbr1", true, false, &["192.168.100.1"]),
    ];
    assert_eq!(default_interface(&interfaces), None);
    assert_eq!(get_ip_addr(&interfaces), "0.0.0.0");
    assert_eq!(get_ip_addr(&Vec::new()), "0.0.0.0");
}

#[test]
fn bridge_names_are_matched_anywhere() {
    assert!(!is_usable(&iface("xvirbr", true, false, &["1.2.3.4"])));
    assert!(is_usable(&iface("virb", true, false, &["1.2.3.4"])));
}
