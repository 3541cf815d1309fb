//! The background monitor: diff laws on concrete scans, the start/stop
//! state machine, and status reporting.

use host_discovery::config::{
    DEFAULT_MONITOR_INTERVAL, MAX_MONITOR_INTERVAL, MIN_MONITOR_INTERVAL,
};
use host_discovery::events::{scan_progress_event, DeviceSnapshot, NetworkEvent, ScanPhase};
use host_discovery::monitor::{dedup_by_mac, detect_changes, BackgroundMonitor};

fn snap(mac: &str, ip: &str) -> DeviceSnapshot {
    DeviceSnapshot {
        mac: String::from(mac),
        ip: String::from(ip),
        hostname: None,
        device_type: String::from("UNKNOWN"),
        is_online: true,
    }
}

#[test]
fn diff_of_identical_scans_is_empty() {
    let prev = vec![snap("AA:BB:CC:11:22:33", "192.168.50.20"), snap("AA:BB:CC:11:22:34", "192.168.50.21")];
    let events = detect_changes(&prev, &prev);
    assert!(events.is_empty());
}

#[test]
fn one_added_device_emits_one_new_event() {
    let prev = vec![snap("AA:BB:CC:11:22:33", "192.168.50.20")];
    let mut cur = vec![snap("AA:BB:CC:11:22:33", "192.168.50.20")];
    cur.push(snap("AA:BB:CC:11:22:99", "192.168.50.40"));
    let events = detect_changes(&prev, &cur);
    assert_eq!(events.len(), 1);
    assert_eq!(
        events[0],
        NetworkEvent::NewDeviceDiscovered {
            ip: String::from("192.168.50.40"),
            mac: String::from("AA:BB:CC:11:22:99"),
            hostname: None,
            device_type: String::from("UNKNOWN"),
        }
    );
}

#[test]
fn one_removed_device_emits_one_offline_event() {
    let mut prev = vec![snap("AA:BB:CC:11:22:33", "192.168.50.20")];
    prev.push(snap("AA:BB:CC:11:22:99", "192.168.50.40"));
    let cur = vec![snap("AA:BB:CC:11:22:33", "192.168.50.20")];
    let events = detect_changes(&prev, &cur);
    assert_eq!(events.len(), 1);
    assert_eq!(
        events[0],
        NetworkEvent::DeviceWentOffline {
            mac: String::from("AA:BB:CC:11:22:99"),
            last_ip: String::from("192.168.50.40"),
            hostname: None,
        }
    );
}

#[test]
fn ip_change_emits_one_event_not_new_plus_offline() {
    let prev = vec![snap("AA:BB:CC:11:22:33", "192.168.50.20")];
    let cur = vec![snap("AA:BB:CC:11:22:33", "192.168.50.21")];
    let events = detect_changes(&prev, &cur);
    assert_eq!(events.len(), 1);
    assert_eq!(
        events[0],
        NetworkEvent::DeviceIpChanged {
            mac: String::from("AA:BB:CC:11:22:33"),
            old_ip: String::from("192.168.50.20"),
            new_ip: String::from("192.168.50.21"),
        }
    );
}

#[test]
fn diff_events_come_in_groups_new_offline_changed() {
    let prev = vec![snap("AA:00:00:00:00:01", "10.0.0.1"), snap("AA:00:00:00:00:02", "10.0.0.2")];
    let cur = vec![snap("AA:00:00:00:00:01", "10.0.0.9"), snap("AA:00:00:00:00:03", "10.0.0.3")];
    let events = detect_changes(&prev, &cur);
    assert_eq!(events.len(), 3);
    assert!(matches!(events[0], NetworkEvent::NewDeviceDiscovered { .. }));
    assert!(matches!(events[1], NetworkEvent::DeviceWentOffline { .. }));
    assert!(matches!(events[2], NetworkEvent::DeviceIpChanged { .. }));
}

#[test]
fn start_twice_returns_already_running() {
    let mut m = BackgroundMonitor::new();
    let first = m.start(Some(60));
    assert_eq!(
        first,
        Ok(NetworkEvent::MonitoringStarted { interval_seconds: 60 })
    );
    assert!(m.is_running());
    let second = m.start(Some(60));
    assert_eq!(second, Err(String::from("Monitoring already running")));
    assert!(m.is_running());
}

#[test]
fn start_clamps_the_interval() {
    let mut m = BackgroundMonitor::new();
    assert_eq!(
        m.start(Some(1)),
        Ok(NetworkEvent::MonitoringStarted { interval_seconds: MIN_MONITOR_INTERVAL })
    );
    m.stop();
    assert_eq!(
        m.start(Some(999_999)),
        Ok(NetworkEvent::MonitoringStarted { interval_seconds: MAX_MONITOR_INTERVAL })
    );
    m.stop();
    assert_eq!(
        m.start(None),
        Ok(NetworkEvent::MonitoringStarted { interval_seconds: DEFAULT_MONITOR_INTERVAL })
    );
}

#[test]
fn stop_during_scan_finishes_the_scan_then_exits() {
    let mut m = BackgroundMonitor::new();
    m.start(Some(60)).expect("fresh monitor starts");
    let mut observed: Vec<NetworkEvent> = Vec::new();
    // The loop opens a scan.
    let started = m.begin_scan().expect("running monitor opens a scan");
    assert_eq!(started, NetworkEvent::ScanStarted { scan_number: 1 });
    observed.push(started);
    // Stop arrives mid-scan: the scan still completes.
    m.stop();
    let devices = vec![snap("AA:BB:CC:11:22:33", "192.168.50.20")];
    for e in m.complete_scan(devices, 500, String::from("2026-01-01T00:00:00Z")) {
        observed.push(e);
    }
    // The next poll sees the cleared flag: no further scan starts.
    assert!(m.begin_scan().is_none());
    observed.push(NetworkEvent::MonitoringStopped);
    // One ScanStarted, one ScanCompleted, one MonitoringStopped.
    let starts = observed
        .iter()
        .filter(|e| matches!(e, NetworkEvent::ScanStarted { .. }))
        .count();
    let completions = observed
        .iter()
        .filter(|e| matches!(e, NetworkEvent::ScanCompleted { .. }))
        .count();
    assert_eq!(starts, 1);
    assert_eq!(completions, 1);
    assert_eq!(observed.last(), Some(&NetworkEvent::MonitoringStopped));
}

#[test]
fn monitor_diff_across_scans() {
    let mut m = BackgroundMonitor::new();
    m.start(Some(60)).expect("fresh monitor starts");
    // Scan 1 sees the device at .20.
    m.begin_scan().expect("scan 1 opens");
    let events1 = m.complete_scan(
        vec![snap("AA:BB:CC:11:22:33", "192.168.50.20")],
        100,
        String::from("2026-01-01T00:00:00Z"),
    );
    assert_eq!(events1.len(), 2);
    assert!(matches!(events1[0], NetworkEvent::NewDeviceDiscovered { .. }));
    assert_eq!(
        events1[1],
        NetworkEvent::ScanCompleted { scan_number: 1, hosts_found: 1, duration_ms: 100 }
    );
    // Scan 2 sees the same MAC at .21: exactly one IP-change event.
    m.begin_scan().expect("scan 2 opens");
    let events2 = m.complete_scan(
        vec![snap("AA:BB:CC:11:22:33", "192.168.50.21")],
        110,
        String::from("2026-01-01T00:05:00Z"),
    );
    assert_eq!(events2.len(), 2);
    assert_eq!(
        events2[0],
        NetworkEvent::DeviceIpChanged {
            mac: String::from("AA:BB:CC:11:22:33"),
            old_ip: String::from("192.168.50.20"),
            new_ip: String::from("192.168.50.21"),
        }
    );
    assert!(matches!(events2[1], NetworkEvent::ScanCompleted { scan_number: 2, .. }));
}

#[test]
fn failed_scan_reports_and_monitoring_continues() {
    let mut m = BackgroundMonitor::new();
    m.start(None).expect("fresh monitor starts");
    m.begin_scan().expect("scan opens");
    let e = m.fail_scan(String::from("Interface error: no NIC"));
    assert_eq!(
        e,
        NetworkEvent::MonitoringError { message: String::from("Interface error: no NIC") }
    );
    assert!(m.is_running());
    assert!(m.begin_scan().is_some());
}

#[test]
fn status_counts_devices() {
    let mut m = BackgroundMonitor::new();
    let s0 = m.status();
    assert!(!s0.is_running);
    assert_eq!(s0.scan_count, 0);
    assert_eq!(s0.devices_total, 0);
    assert_eq!(s0.last_scan_time, None);
    m.start(Some(45)).expect("fresh monitor starts");
    m.begin_scan().expect("scan opens");
    let mut offline = snap("AA:00:00:00:00:02", "10.0.0.2");
    offline.is_online = false;
    m.complete_scan(
        vec![snap("AA:00:00:00:00:01", "10.0.0.1"), offline],
        90,
        String::from("2026-01-01T00:00:00Z"),
    );
    let s = m.status();
    assert!(s.is_running);
    assert_eq!(s.interval_seconds, 45);
    assert_eq!(s.scan_count, 1);
    assert_eq!(s.devices_total, 2);
    assert_eq!(s.devices_online, 1);
    assert_eq!(s.last_scan_time.as_deref(), Some("2026-01-01T00:00:00Z"));
}

#[test]
fn dedup_keeps_last_sighting_per_mac() {
    let devices = vec![
        snap("AA:00:00:00:00:01", "10.0.0.1"),
        snap("AA:00:00:00:00:02", "10.0.0.2"),
        snap("AA:00:00:00:00:01", "10.0.0.9"),
    ];
    let unique = dedup_by_mac(devices);
    assert_eq!(unique.len(), 2);
    assert_eq!(unique[0].mac, "AA:00:00:00:00:01");
    assert_eq!(unique[0].ip, "10.0.0.9");
    assert_eq!(unique[1].mac, "AA:00:00:00:00:02");
}

#[test]
fn progress_events_carry_the_phase_percents() {
    let phases = [
        (ScanPhase::Init, "INIT", 5u8),
        (ScanPhase::Arp, "ARP", 20),
        (ScanPhase::Icmp, "ICMP", 50),
        (ScanPhase::Dns, "DNS", 80),
        (ScanPhase::Complete, "COMPLETE", 100),
    ];
    for (p, text, pct) in phases {
        let e = scan_progress_event(p, String::from("working"));
        match e {
            NetworkEvent::ScanProgress { phase, percent, message } => {
                assert_eq!(phase, text);
                assert_eq!(percent, pct);
                assert_eq!(message, "working");
            },
            _ => panic!("expected a progress event"),
        }
    }
}
