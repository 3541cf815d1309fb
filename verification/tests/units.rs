//! Unit checks of the leaf components: text rendering, MAC parsing,
//! vendor lookup, device inference, risk scoring, service names, subnet
//! membership and interface selection.

use host_discovery::config::tcp_probe_ports;
use host_discovery::device::{
    calculate_risk_score, get_service_name, guess_os_from_ttl, infer_device_type,
    make_port_scan_result, DeviceType,
};
use host_discovery::errors::ScanError;
use host_discovery::iface::{find_valid_interface, interface_score, InterfaceInfo, NicAddr, NicInfo};
use host_discovery::mac::{is_locally_administered, mac_to_string, parse_mac, MacAddr};
use host_discovery::subnet::{is_local_subnet, is_special_address, subnet_of};
use host_discovery::text::ipv4_to_string;
use host_discovery::vendor::{lookup_mac_vendor, lookup_vendor, lookup_vendor_info};

fn addr(a: u8, b: u8, c: u8, d: u8) -> u32 {
    ((a as u32) << 24) | ((b as u32) << 16) | ((c as u32) << 8) | (d as u32)
}

#[test]
fn ipv4_text_rendering() {
    assert_eq!(ipv4_to_string(addr(192, 168, 1, 100)), "192.168.1.100");
    assert_eq!(ipv4_to_string(0), "0.0.0.0");
    assert_eq!(ipv4_to_string(u32::MAX), "255.255.255.255");
    assert_eq!(ipv4_to_string(addr(10, 0, 0, 7)), "10.0.0.7");
}

#[test]
fn mac_text_roundtrip() {
    let m = MacAddr { o0: 0xAA, o1: 0xBB, o2: 0xCC, o3: 0xDD, o4: 0xEE, o5: 0xFF };
    let text = mac_to_string(&m);
    assert_eq!(text, "AA:BB:CC:DD:EE:FF");
    assert_eq!(parse_mac(&text), Some(m));
    // Lower-case input parses to the same octets.
    assert_eq!(parse_mac("aa:bb:cc:dd:ee:ff"), Some(m));
    // Malformed text is rejected.
    assert_eq!(parse_mac("AA:BB:CC:DD:EE"), None);
    assert_eq!(parse_mac("AA:BB:CC:DD:EE:GG"), None);
    assert_eq!(parse_mac("AABBCCDDEEFF0011X"), None);
    assert_eq!(parse_mac(""), None);
}

#[test]
fn locally_administered_bit() {
    let randomized = MacAddr { o0: 0x0A, o1: 0x11, o2: 0x22, o3: 0x33, o4: 0x44, o5: 0x55 };
    assert!(is_locally_administered(&randomized));
    let global = MacAddr { o0: 0xA8, o1: 0x66, o2: 0x7F, o3: 0x33, o4: 0x44, o5: 0x55 };
    assert!(!is_locally_administered(&global));
}

#[test]
fn vendor_lookup_by_oui() {
    let apple = MacAddr { o0: 0xA8, o1: 0x66, o2: 0x7F, o3: 0x01, o4: 0x02, o5: 0x03 };
    assert_eq!(lookup_vendor(&apple).as_deref(), Some("Apple"));
    let nobody = MacAddr { o0: 0x12, o1: 0x34, o2: 0x56, o3: 0x01, o4: 0x02, o5: 0x03 };
    assert_eq!(lookup_vendor(&nobody), None);
}

#[test]
fn vendor_info_from_text() {
    let info = lookup_vendor_info("0a:11:22:33:44:55");
    assert!(info.is_randomized);
    assert_eq!(info.vendor, None);
    // A locally-administered MAC may still have a vendor: the flag is
    // orthogonal.
    let virt = lookup_vendor_info("AA:BB:CC:11:22:33");
    assert!(virt.is_randomized == false || virt.is_randomized == true);
    assert_eq!(virt.vendor.as_deref(), Some("TP-Link"));
    // Unparsable text yields neither.
    let bad = lookup_vendor_info("not-a-mac");
    assert_eq!(bad.vendor, None);
    assert!(!bad.is_randomized);
}

#[test]
fn mac_vendor_command_echoes_the_query() {
    let r = lookup_mac_vendor(String::from("A8:66:7F:00:00:01")).expect("lookup always succeeds");
    assert_eq!(r.mac, "A8:66:7F:00:00:01");
    assert_eq!(r.vendor.as_deref(), Some("Apple"));
    assert!(!r.is_randomized);
}

#[test]
fn device_type_rules_first_match_wins() {
    let none: Vec<u16> = Vec::new();
    // Gateway with a router vendor.
    assert_eq!(
        infer_device_type(Some("Cisco"), None, &vec![80], true),
        DeviceType::Router
    );
    // A mobile OUI beats port hints.
    assert_eq!(
        infer_device_type(Some("Apple"), None, &vec![445], false),
        DeviceType::Mobile
    );
    // Hostname substrings, case-insensitively.
    assert_eq!(
        infer_device_type(None, Some("Office-PRINTER-2"), &none, false),
        DeviceType::Printer
    );
    assert_eq!(
        infer_device_type(None, Some("iot-sensor"), &none, false),
        DeviceType::Iot
    );
    assert_eq!(
        infer_device_type(Some("Espressif"), None, &none, false),
        DeviceType::Iot
    );
    // The iPhone sync port.
    assert_eq!(
        infer_device_type(None, None, &vec![62078], false),
        DeviceType::Mobile
    );
    // SMB or RDP mark a PC.
    assert_eq!(infer_device_type(None, None, &vec![445], false), DeviceType::Pc);
    assert_eq!(infer_device_type(None, None, &vec![3389], false), DeviceType::Pc);
    // Nothing else matched.
    assert_eq!(infer_device_type(None, None, &none, false), DeviceType::Unknown);
    // A router vendor without the gateway hint is not a router.
    assert_eq!(
        infer_device_type(Some("Cisco"), None, &none, false),
        DeviceType::Unknown
    );
    assert_eq!(DeviceType::Router.as_str(), "ROUTER");
    assert_eq!(DeviceType::Iot.as_str(), "IOT");
}

#[test]
fn risk_score_formula() {
    let none: Vec<u16> = Vec::new();
    // Base alone.
    assert_eq!(calculate_risk_score(DeviceType::Pc, &none, false), 10);
    // Sensitive ports weigh 20, lateral ports 10, others 5.
    assert_eq!(calculate_risk_score(DeviceType::Pc, &vec![23], false), 30);
    assert_eq!(calculate_risk_score(DeviceType::Pc, &vec![21, 3389], false), 50);
    assert_eq!(calculate_risk_score(DeviceType::Pc, &vec![445, 5353], false), 30);
    assert_eq!(calculate_risk_score(DeviceType::Pc, &vec![22, 80], false), 20);
    // The randomized flag adds 30; device-type modifiers add 10 or 15.
    assert_eq!(calculate_risk_score(DeviceType::Unknown, &none, true), 55);
    assert_eq!(calculate_risk_score(DeviceType::Router, &vec![80], false), 25);
    // The score clamps at 100.
    assert_eq!(
        calculate_risk_score(DeviceType::Unknown, &vec![21, 23, 3389, 445, 5353], true),
        100
    );
}

#[test]
fn os_guess_buckets() {
    assert_eq!(guess_os_from_ttl(32), "Linux/Unix");
    assert_eq!(guess_os_from_ttl(64), "Linux/Unix");
    assert_eq!(guess_os_from_ttl(65), "Windows");
    assert_eq!(guess_os_from_ttl(128), "Windows");
    assert_eq!(guess_os_from_ttl(129), "Network Device");
    assert_eq!(guess_os_from_ttl(255), "Network Device");
}

#[test]
fn service_names() {
    assert_eq!(get_service_name(22), "SSH");
    assert_eq!(get_service_name(80), "HTTP");
    assert_eq!(get_service_name(443), "HTTPS");
    assert_eq!(get_service_name(445), "SMB");
    assert_eq!(get_service_name(3389), "RDP");
    assert_eq!(get_service_name(5432), "PostgreSQL");
    assert_eq!(get_service_name(6000), "Unknown");
}

#[test]
fn port_scan_result_names_open_ports_only() {
    let open = make_port_scan_result(22, true);
    assert_eq!(open.port, 22);
    assert!(open.is_open);
    assert_eq!(open.service.as_deref(), Some("SSH"));
    let closed = make_port_scan_result(22, false);
    assert!(!closed.is_open);
    assert_eq!(closed.service, None);
}

#[test]
fn probe_port_list_is_ascending() {
    let ports = tcp_probe_ports();
    assert_eq!(ports, vec![22, 80, 443, 445, 3389, 5353, 8080, 62078]);
    for w in ports.windows(2) {
        assert!(w[0] < w[1]);
    }
}

#[test]
fn subnet_membership_and_special_addresses() {
    let net = subnet_of(addr(192, 168, 50, 10), 24);
    assert_eq!(net.network, addr(192, 168, 50, 0));
    assert!(is_special_address(addr(192, 168, 50, 0), &net));
    assert!(is_special_address(addr(192, 168, 50, 255), &net));
    assert!(!is_special_address(addr(192, 168, 50, 1), &net));
    let iface = InterfaceInfo {
        name: String::from("eth0"),
        ip: addr(192, 168, 50, 10),
        mac: MacAddr { o0: 1, o1: 2, o2: 3, o3: 4, o4: 5, o5: 6 },
        prefix_len: 24,
    };
    assert!(is_local_subnet(addr(192, 168, 50, 200), &iface));
    assert!(!is_local_subnet(addr(192, 168, 51, 1), &iface));
}

#[test]
fn interface_scores() {
    assert_eq!(interface_score(addr(192, 168, 1, 5)), 100);
    assert_eq!(interface_score(addr(10, 1, 2, 3)), 90);
    assert_eq!(interface_score(addr(172, 16, 0, 1)), 50);
    assert_eq!(interface_score(addr(172, 31, 0, 1)), 50);
    assert_eq!(interface_score(addr(8, 8, 8, 8)), 70);
    assert_eq!(interface_score(addr(192, 167, 1, 5)), 70);
}

#[test]
fn interface_selection_rejects_virtual_adapters() {
    let mac = MacAddr { o0: 1, o1: 2, o2: 3, o3: 4, o4: 5, o5: 6 };
    let nics = vec![
        NicInfo {
            name: String::from("lo"),
            is_loopback: true,
            mac: Some(mac),
            ips: vec![NicAddr { ip: addr(127, 0, 0, 1), prefix_len: 8 }],
        },
        NicInfo {
            name: String::from("vEthernet (WSL)"),
            is_loopback: false,
            mac: Some(mac),
            ips: vec![NicAddr { ip: addr(192, 168, 99, 1), prefix_len: 24 }],
        },
        NicInfo {
            name: String::from("eth1"),
            is_loopback: false,
            mac: None,
            ips: vec![NicAddr { ip: addr(192, 168, 1, 4), prefix_len: 24 }],
        },
        NicInfo {
            name: String::from("eth0"),
            is_loopback: false,
            mac: Some(mac),
            ips: vec![
                NicAddr { ip: addr(169, 254, 3, 4), prefix_len: 16 },
                NicAddr { ip: addr(172, 20, 0, 5), prefix_len: 16 },
                NicAddr { ip: addr(10, 0, 0, 5), prefix_len: 8 },
            ],
        },
        NicInfo {
            name: String::from("wlan0"),
            is_loopback: false,
            mac: Some(mac),
            ips: vec![NicAddr { ip: addr(192, 168, 1, 7), prefix_len: 24 }],
        },
    ];
    let chosen = find_valid_interface(&nics).expect("a candidate exists");
    // 192.168/16 scores highest; link-local and the large 172.20/16 range
    // are rejected, as are loopback, MAC-less and virtual adapters.
    assert_eq!(chosen.name, "wlan0");
    assert_eq!(chosen.ip, addr(192, 168, 1, 7));
    assert_eq!(chosen.prefix_len, 24);
}

#[test]
fn interface_selection_fails_without_candidates() {
    let nics = vec![NicInfo {
        name: String::from("lo"),
        is_loopback: true,
        mac: Some(MacAddr { o0: 0, o1: 0, o2: 0, o3: 0, o4: 0, o5: 0 }),
        ips: vec![NicAddr { ip: addr(127, 0, 0, 1), prefix_len: 8 }],
    }];
    let r = find_valid_interface(&nics);
    assert_eq!(r.err(), Some(ScanError::NoInterface));
    assert_eq!(
        ScanError::NoInterface.message(),
        "No valid IPv4 network interface found"
    );
}

#[test]
fn first_of_equal_scores_wins() {
    let mac = MacAddr { o0: 1, o1: 2, o2: 3, o3: 4, o4: 5, o5: 6 };
    let nics = vec![
        NicInfo {
            name: String::from("eth0"),
            is_loopback: false,
            mac: Some(mac),
            ips: vec![NicAddr { ip: addr(192, 168, 1, 4), prefix_len: 24 }],
        },
        NicInfo {
            name: String::from("wlan0"),
            is_loopback: false,
            mac: Some(mac),
            ips: vec![NicAddr { ip: addr(192, 168, 1, 7), prefix_len: 24 }],
        },
    ];
    let chosen = find_valid_interface(&nics).expect("candidates exist");
    assert_eq!(chosen.name, "eth0");
}
