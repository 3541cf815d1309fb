//! End-to-end scenarios of the scan pipeline: subnet calculation, ARP
//! sweep bookkeeping, enrichment and result assembly.

use host_discovery::arp::{
    accept_arp_reply, arp_round_should_stop, arp_targets, build_arp_request, parse_arp_reply,
    ArpSweep,
};
use host_discovery::iface::InterfaceInfo;
use host_discovery::mac::MacAddr;
use host_discovery::scan::{
    assemble_scan_result, filter_ptr_hostname, ArpEntry, DnsEntry, IcmpEntry, SnmpEntry, TcpEntry,
};
use host_discovery::subnet::calculate_subnet_ips;

fn ip4(a: u8, b: u8, c: u8, d: u8) -> u32 {
    ((a as u32) << 24) | ((b as u32) << 16) | ((c as u32) << 8) | (d as u32)
}

fn test_iface() -> InterfaceInfo {
    InterfaceInfo {
        name: String::from("eth0"),
        ip: ip4(192, 168, 50, 10),
        mac: MacAddr { o0: 0x00, o1: 0x11, o2: 0x22, o3: 0x33, o4: 0x44, o5: 0x55 },
        prefix_len: 24,
    }
}

#[test]
fn subnet_of_24_has_254_hosts() {
    let iface = test_iface();
    let (net, ips) = calculate_subnet_ips(&iface);
    assert_eq!(net.network, ip4(192, 168, 50, 0));
    assert_eq!(net.prefix, 24);
    assert_eq!(ips.len(), 254);
    assert_eq!(ips[0], ip4(192, 168, 50, 1));
    assert_eq!(ips[253], ip4(192, 168, 50, 254));
}

#[test]
fn edge_prefixes_yield_no_hosts() {
    let mut iface = test_iface();
    iface.prefix_len = 31;
    let (_, ips) = calculate_subnet_ips(&iface);
    assert_eq!(ips.len(), 0);
    iface.prefix_len = 32;
    let (_, ips) = calculate_subnet_ips(&iface);
    assert_eq!(ips.len(), 0);
}

#[test]
fn edge_prefix_scan_reports_only_local_host() {
    let mut iface = test_iface();
    iface.prefix_len = 31;
    let (net, ips) = calculate_subnet_ips(&iface);
    assert!(ips.is_empty());
    let result = assemble_scan_result(
        &iface,
        &net,
        &Vec::new(),
        &Vec::new(),
        &Vec::new(),
        &Vec::new(),
        &Vec::new(),
        10,
    );
    assert_eq!(result.total_hosts, 1);
    assert_eq!(result.active_hosts.len(), 1);
    assert_eq!(result.active_hosts[0].discovery_method, "LOCAL");
}

#[test]
fn empty_network_scan_has_only_local() {
    let iface = test_iface();
    let (net, _) = calculate_subnet_ips(&iface);
    let result = assemble_scan_result(
        &iface,
        &net,
        &Vec::new(),
        &Vec::new(),
        &Vec::new(),
        &Vec::new(),
        &Vec::new(),
        321,
    );
    assert_eq!(result.arp_discovered, 0);
    assert_eq!(result.icmp_discovered, 0);
    assert_eq!(result.total_hosts, 1);
    assert_eq!(result.subnet, "192.168.50.0/24");
    assert_eq!(result.scan_method, "Active ARP + ICMP");
    assert_eq!(result.scan_duration_ms, 321);
    assert_eq!(result.interface_name, "eth0");
    assert_eq!(result.local_ip, "192.168.50.10");
    assert_eq!(result.local_mac, "00:11:22:33:44:55");
    let local = &result.active_hosts[0];
    assert_eq!(local.ip, "192.168.50.10");
    assert_eq!(local.discovery_method, "LOCAL");
    assert_eq!(local.response_time_ms, Some(0));
    assert_eq!(local.risk_score, 0);
}

#[test]
fn single_router_scenario() {
    let iface = test_iface();
    let (net, _) = calculate_subnet_ips(&iface);
    let router_ip = ip4(192, 168, 50, 1);
    let arp = vec![ArpEntry {
        ip: router_ip,
        mac: MacAddr { o0: 0xAA, o1: 0xBB, o2: 0xCC, o3: 0x11, o4: 0x22, o5: 0x33 },
    }];
    let icmp = vec![IcmpEntry { ip: router_ip, rtt_ms: 3, ttl: Some(64) }];
    let tcp = vec![TcpEntry { ip: router_ip, open_ports: vec![80] }];
    let result = assemble_scan_result(
        &iface,
        &net,
        &arp,
        &icmp,
        &tcp,
        &Vec::new(),
        &Vec::new(),
        900,
    );
    assert_eq!(result.arp_discovered, 1);
    assert_eq!(result.icmp_discovered, 1);
    assert_eq!(result.total_hosts, 2);
    let router = &result.active_hosts[0];
    assert_eq!(router.ip, "192.168.50.1");
    assert_eq!(router.mac, "AA:BB:CC:11:22:33");
    assert_eq!(router.device_type, "ROUTER");
    assert_eq!(router.discovery_method, "ARP+ICMP+TCP");
    assert_eq!(router.os_guess.as_deref(), Some("Linux/Unix"));
    assert_eq!(router.vendor.as_deref(), Some("TP-Link"));
    assert_eq!(router.response_time_ms, Some(3));
    assert_eq!(router.ttl, Some(64));
    assert_eq!(router.open_ports, vec![80]);
    // The local machine follows, sorted by numeric address.
    assert_eq!(result.active_hosts[1].discovery_method, "LOCAL");
}

#[test]
fn randomized_mac_scores_high_risk() {
    let iface = test_iface();
    let (net, _) = calculate_subnet_ips(&iface);
    let arp = vec![ArpEntry {
        ip: ip4(192, 168, 50, 77),
        mac: MacAddr { o0: 0x0A, o1: 0x11, o2: 0x22, o3: 0x33, o4: 0x44, o5: 0x55 },
    }];
    let result = assemble_scan_result(
        &iface,
        &net,
        &arp,
        &Vec::new(),
        &Vec::new(),
        &Vec::new(),
        &Vec::new(),
        50,
    );
    // Sorted by address, the local .10 precedes the host at .77.
    let host = &result.active_hosts[1];
    assert_eq!(host.mac, "0A:11:22:33:44:55");
    assert!(host.is_randomized);
    assert!(host.vendor.is_none());
    // Base 10, randomized MAC 30, unknown device 15.
    assert_eq!(host.risk_score, 55);
    assert!(host.risk_score >= 40);
}

#[test]
fn arp_only_host_keeps_bare_tag() {
    let iface = test_iface();
    let (net, _) = calculate_subnet_ips(&iface);
    let arp = vec![ArpEntry {
        ip: ip4(192, 168, 50, 9),
        mac: MacAddr { o0: 0x00, o1: 0x14, o2: 0x22, o3: 0x01, o4: 0x02, o5: 0x03 },
    }];
    let result = assemble_scan_result(
        &iface,
        &net,
        &arp,
        &Vec::new(),
        &Vec::new(),
        &Vec::new(),
        &Vec::new(),
        50,
    );
    let host = &result.active_hosts[0];
    assert_eq!(host.discovery_method, "ARP");
    assert_eq!(host.response_time_ms, None);
    assert!(host.open_ports.is_empty());
}

#[test]
fn scan_result_invariants_hold_on_mixed_scan() {
    let iface = test_iface();
    let (net, _) = calculate_subnet_ips(&iface);
    let arp = vec![
        ArpEntry {
            ip: ip4(192, 168, 50, 200),
            mac: MacAddr { o0: 0xF0, o1: 0x18, o2: 0x98, o3: 0x01, o4: 0x02, o5: 0x03 },
        },
        ArpEntry {
            ip: ip4(192, 168, 50, 1),
            mac: MacAddr { o0: 0xAA, o1: 0xBB, o2: 0xCC, o3: 0x11, o4: 0x22, o5: 0x33 },
        },
        ArpEntry {
            ip: ip4(192, 168, 50, 30),
            mac: MacAddr { o0: 0x00, o1: 0x14, o2: 0x22, o3: 0xAA, o4: 0xBB, o5: 0xCC },
        },
    ];
    let icmp = vec![IcmpEntry { ip: ip4(192, 168, 50, 30), rtt_ms: 12, ttl: Some(128) }];
    let tcp = vec![TcpEntry { ip: ip4(192, 168, 50, 30), open_ports: vec![445, 3389] }];
    let result = assemble_scan_result(
        &iface,
        &net,
        &arp,
        &icmp,
        &tcp,
        &Vec::new(),
        &Vec::new(),
        100,
    );
    // Sorted ascending by numeric IPv4.
    let ips: Vec<&str> = result.active_hosts.iter().map(|h| h.ip.as_str()).collect();
    assert_eq!(
        ips,
        vec!["192.168.50.1", "192.168.50.10", "192.168.50.30", "192.168.50.200"]
    );
    // Counts are consistent; no more ICMP responders than ARP hosts.
    assert_eq!(result.total_hosts, result.active_hosts.len());
    assert!(result.arp_discovered >= result.icmp_discovered);
    assert_eq!(result.arp_discovered, 3);
    assert_eq!(result.icmp_discovered, 1);
    // Exactly one LOCAL entry, equal to the local IP.
    let locals: Vec<&host_discovery::models::HostInfo> = result
        .active_hosts
        .iter()
        .filter(|h| h.discovery_method == "LOCAL")
        .collect();
    assert_eq!(locals.len(), 1);
    assert_eq!(locals[0].ip, result.local_ip);
    // Risk scores in range, ports strictly ascending.
    for h in &result.active_hosts {
        assert!(h.risk_score <= 100);
        for w in h.open_ports.windows(2) {
            assert!(w[0] < w[1]);
        }
    }
    // The PC host: SMB and RDP open.
    let pc = &result.active_hosts[2];
    assert_eq!(pc.device_type, "PC");
    assert_eq!(pc.os_guess.as_deref(), Some("Windows"));
    assert_eq!(pc.discovery_method, "ARP+ICMP+TCP");
}

#[test]
fn arp_request_frame_layout() {
    let mac = MacAddr { o0: 0x00, o1: 0x11, o2: 0x22, o3: 0x33, o4: 0x44, o5: 0x55 };
    let frame = build_arp_request(&mac, ip4(192, 168, 50, 10), ip4(192, 168, 50, 1));
    assert_eq!(frame.len(), 42);
    assert_eq!(&frame[0..6], &[0xff; 6]);
    assert_eq!(&frame[6..12], &[0x00, 0x11, 0x22, 0x33, 0x44, 0x55]);
    assert_eq!(&frame[12..14], &[0x08, 0x06]);
    assert_eq!(&frame[20..22], &[0x00, 0x01]);
    assert_eq!(&frame[28..32], &[192, 168, 50, 10]);
    assert_eq!(&frame[32..38], &[0u8; 6]);
    assert_eq!(&frame[38..42], &[192, 168, 50, 1]);
}

#[test]
fn arp_reply_parses_and_request_does_not() {
    let mac = MacAddr { o0: 0x00, o1: 0x11, o2: 0x22, o3: 0x33, o4: 0x44, o5: 0x55 };
    let mut frame = build_arp_request(&mac, ip4(192, 168, 50, 10), ip4(192, 168, 50, 1));
    // A request (opcode 1) is not a reply.
    assert!(parse_arp_reply(&frame).is_none());
    // Flip the opcode to 2: now it parses, reporting the sender.
    frame[21] = 0x02;
    let entry = parse_arp_reply(&frame).expect("reply should parse");
    assert_eq!(entry.ip, ip4(192, 168, 50, 10));
    assert_eq!(entry.mac, mac);
    // Too short or wrong ethertype: rejected.
    assert!(parse_arp_reply(&frame[0..41]).is_none());
    frame[12] = 0x08;
    frame[13] = 0x00;
    assert!(parse_arp_reply(&frame).is_none());
}

#[test]
fn arp_reply_filtering() {
    let iface = test_iface();
    let (net, _) = calculate_subnet_ips(&iface);
    let good = ArpEntry {
        ip: ip4(192, 168, 50, 1),
        mac: MacAddr { o0: 0xAA, o1: 0xBB, o2: 0xCC, o3: 0x11, o4: 0x22, o5: 0x33 },
    };
    assert!(accept_arp_reply(&good, &net, iface.ip));
    // The local interface's own address is dropped.
    let own = ArpEntry { ip: iface.ip, mac: good.mac };
    assert!(!accept_arp_reply(&own, &net, iface.ip));
    // An off-subnet sender is dropped.
    let outside = ArpEntry { ip: ip4(10, 0, 0, 1), mac: good.mac };
    assert!(!accept_arp_reply(&outside, &net, iface.ip));
    // An all-zero MAC is dropped.
    let zero = ArpEntry {
        ip: ip4(192, 168, 50, 2),
        mac: MacAddr { o0: 0, o1: 0, o2: 0, o3: 0, o4: 0, o5: 0 },
    };
    assert!(!accept_arp_reply(&zero, &net, iface.ip));
}

#[test]
fn straggler_appears_in_second_round() {
    let iface = test_iface();
    let (net, _) = calculate_subnet_ips(&iface);
    let t1 = ip4(192, 168, 50, 1);
    let t2 = ip4(192, 168, 50, 2);
    let mut sweep = ArpSweep::new(vec![t1, t2]);
    let m1 = MacAddr { o0: 0xAA, o1: 0xBB, o2: 0xCC, o3: 0x11, o4: 0x22, o5: 0x33 };
    let m2 = MacAddr { o0: 0x00, o1: 0x14, o2: 0x22, o3: 0x01, o4: 0x02, o5: 0x03 };
    // Round 1: only t1 answers.
    let mut reply1 = build_arp_request(&m1, t1, iface.ip);
    reply1[21] = 0x02;
    assert!(sweep.record_frame(&reply1, &net, iface.ip));
    // With a single round, t2 would be missing.
    assert!(sweep.has_found(t1));
    assert!(!sweep.has_found(t2));
    // Round 2 re-requests only the unresolved target.
    assert_eq!(sweep.pending_targets(), vec![t2]);
    let mut reply2 = build_arp_request(&m2, t2, iface.ip);
    reply2[21] = 0x02;
    assert!(sweep.record_frame(&reply2, &net, iface.ip));
    assert!(sweep.pending_targets().is_empty());
    let results = sweep.into_results();
    assert_eq!(results.len(), 2);
    assert_eq!(results[0].ip, t1);
    assert_eq!(results[1].ip, t2);
}

#[test]
fn duplicate_arp_reply_keeps_one_entry_last_mac_wins() {
    let iface = test_iface();
    let (net, _) = calculate_subnet_ips(&iface);
    let t1 = ip4(192, 168, 50, 1);
    let mut sweep = ArpSweep::new(vec![t1]);
    let m1 = MacAddr { o0: 0xAA, o1: 0xBB, o2: 0xCC, o3: 0x11, o4: 0x22, o5: 0x33 };
    let m2 = MacAddr { o0: 0x00, o1: 0x14, o2: 0x22, o3: 0x01, o4: 0x02, o5: 0x03 };
    let mut reply1 = build_arp_request(&m1, t1, iface.ip);
    reply1[21] = 0x02;
    let mut reply2 = build_arp_request(&m2, t1, iface.ip);
    reply2[21] = 0x02;
    assert!(sweep.record_frame(&reply1, &net, iface.ip));
    assert!(!sweep.record_frame(&reply2, &net, iface.ip));
    let results = sweep.into_results();
    assert_eq!(results.len(), 1);
    assert_eq!(results[0].mac, m2);
}

#[test]
fn sweep_targets_exclude_the_local_address() {
    let local = ip4(192, 168, 50, 10);
    let ips = vec![ip4(192, 168, 50, 9), local, ip4(192, 168, 50, 11)];
    let targets = arp_targets(&ips, local);
    assert_eq!(targets, vec![ip4(192, 168, 50, 9), ip4(192, 168, 50, 11)]);
}

#[test]
fn adaptive_wait_policy() {
    // The cap alone stops a round.
    assert!(arp_round_should_stop(1500, 0, false));
    // Idle timeout stops only once something was found.
    assert!(arp_round_should_stop(600, 400, true));
    assert!(!arp_round_should_stop(600, 400, false));
    assert!(!arp_round_should_stop(600, 399, true));
    assert!(!arp_round_should_stop(0, 0, false));
}

#[test]
fn ptr_answers_echoing_the_ip_are_dropped() {
    let ip = ip4(192, 168, 50, 7);
    assert_eq!(filter_ptr_hostname(ip, String::from("192.168.50.7")), None);
    assert_eq!(
        filter_ptr_hostname(ip, String::from("printer.lan")),
        Some(String::from("printer.lan"))
    );
}

#[test]
fn snmp_enrichment_appends_tag_and_fields() {
    let iface = test_iface();
    let (net, _) = calculate_subnet_ips(&iface);
    let ip = ip4(192, 168, 50, 3);
    let arp = vec![ArpEntry {
        ip,
        mac: MacAddr { o0: 0x00, o1: 0x00, o2: 0x0C, o3: 0x01, o4: 0x02, o5: 0x03 },
    }];
    let snmp = vec![SnmpEntry {
        ip,
        hostname: Some(String::from("core-switch")),
        system_description: Some(String::from("IOS")),
        uptime_seconds: Some(12345),
        neighbors: Vec::new(),
    }];
    let dns: Vec<DnsEntry> = Vec::new();
    let result =
        assemble_scan_result(&iface, &net, &arp, &Vec::new(), &Vec::new(), &dns, &snmp, 10);
    let host = &result.active_hosts[0];
    assert_eq!(host.discovery_method, "ARP+SNMP");
    assert_eq!(host.hostname.as_deref(), Some("core-switch"));
    assert_eq!(host.system_description.as_deref(), Some("IOS"));
    assert_eq!(host.uptime_seconds, Some(12345));
}

#[test]
fn dns_hostname_wins_over_snmp() {
    let iface = test_iface();
    let (net, _) = calculate_subnet_ips(&iface);
    let ip = ip4(192, 168, 50, 3);
    let arp = vec![ArpEntry {
        ip,
        mac: MacAddr { o0: 0x00, o1: 0x00, o2: 0x0C, o3: 0x01, o4: 0x02, o5: 0x03 },
    }];
    let dns = vec![DnsEntry { ip, hostname: String::from("gw.lan") }];
    let snmp = vec![SnmpEntry {
        ip,
        hostname: Some(String::from("core-switch")),
        system_description: None,
        uptime_seconds: None,
        neighbors: Vec::new(),
    }];
    let result =
        assemble_scan_result(&iface, &net, &arp, &Vec::new(), &Vec::new(), &dns, &snmp, 10);
    assert_eq!(result.active_hosts[0].hostname.as_deref(), Some("gw.lan"));
}
