//! The monitor's event model: device snapshots, network events and the
//! monitoring status record.

use vstd::prelude::*;

verus! {

/// The monitor's diff key for one device, from one scan. Identity is the
/// MAC (not the IP), so DHCP-induced IP changes do not count as new
/// devices.
#[derive(Debug)]
pub struct DeviceSnapshot {
    pub mac: String,
    pub ip: String,
    pub hostname: Option<String>,
    pub device_type: String,
    pub is_online: bool,
}

impl Clone for DeviceSnapshot {
    /// Field-for-field copy.
    fn clone(&self) -> (r: Self)
        ensures
            r == *self,
    {
        DeviceSnapshot {
            mac: self.mac.clone(),
            ip: self.ip.clone(),
            hostname: match &self.hostname {
                Some(s) => Some(s.clone()),
                None => None,
            },
            device_type: self.device_type.clone(),
            is_online: self.is_online,
        }
    }
}

/// Everything the monitor can tell a subscriber.
#[derive(PartialEq, Eq, Debug)]
pub enum NetworkEvent {
    MonitoringStarted { interval_seconds: u64 },
    ScanStarted { scan_number: u32 },
    ScanProgress { phase: String, percent: u8, message: String },
    ScanCompleted { scan_number: u32, hosts_found: usize, duration_ms: u64 },
    NewDeviceDiscovered { ip: String, mac: String, hostname: Option<String>, device_type: String },
    DeviceWentOffline { mac: String, last_ip: String, hostname: Option<String> },
    DeviceIpChanged { mac: String, old_ip: String, new_ip: String },
    MonitoringError { message: String },
    MonitoringStopped,
}

/// A named stage of one scan.
#[derive(Clone, Copy, PartialEq, Eq, Structural, Debug)]
pub enum ScanPhase {
    Init,
    Arp,
    Icmp,
    Dns,
    Complete,
}

/// The tag text of a scan phase.
pub open spec fn spec_phase_text(p: ScanPhase) -> Seq<char> {
    match p {
        ScanPhase::Init => "INIT"@,
        ScanPhase::Arp => "ARP"@,
        ScanPhase::Icmp => "ICMP"@,
        ScanPhase::Dns => "DNS"@,
        ScanPhase::Complete => "COMPLETE"@,
    }
}

/// How far along a scan is when it enters a phase.
pub open spec fn spec_phase_percent(p: ScanPhase) -> u8 {
    match p {
        ScanPhase::Init => 5,
        ScanPhase::Arp => 20,
        ScanPhase::Icmp => 50,
        ScanPhase::Dns => 80,
        ScanPhase::Complete => 100,
    }
}

/// Builds the progress event of a phase: phases report 5, 20, 50, 80 and
/// 100 percent, in that order.
pub fn scan_progress_event(phase: ScanPhase, message: String) -> (r: NetworkEvent)
    ensures
        r matches NetworkEvent::ScanProgress { phase: p, percent, message: m } && p@
            == spec_phase_text(phase) && percent == spec_phase_percent(phase) && m == message,
{
    let text = match phase {
        ScanPhase::Init => "INIT",
        ScanPhase::Arp => "ARP",
        ScanPhase::Icmp => "ICMP",
        ScanPhase::Dns => "DNS",
        ScanPhase::Complete => "COMPLETE",
    };
    let percent = match phase {
        ScanPhase::Init => 5,
        ScanPhase::Arp => 20,
        ScanPhase::Icmp => 50,
        ScanPhase::Dns => 80,
        ScanPhase::Complete => 100,
    };
    NetworkEvent::ScanProgress { phase: String::from_str(text), percent, message }
}

/// A snapshot of the monitor's state.
#[derive(Debug)]
pub struct MonitoringStatus {
    pub is_running: bool,
    pub interval_seconds: u64,
    pub scan_count: u32,
    pub last_scan_time: Option<String>,
    pub devices_online: usize,
    pub devices_total: usize,
}

} // verus!
