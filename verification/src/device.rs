//! Device-type inference, risk scoring, OS guessing and service names.

use vstd::prelude::*;

use crate::iface::spec_contains_ci;
use crate::vendor::{spec_is_iot_vendor, spec_is_mobile_vendor, spec_is_router_vendor};

verus! {

/// Inferred device category.
#[derive(Clone, Copy, PartialEq, Eq, Structural, Debug)]
pub enum DeviceType {
    Router,
    Mobile,
    Printer,
    Iot,
    Pc,
    Unknown,
}

/// The tag text of a device type.
pub open spec fn spec_device_type_text(t: DeviceType) -> Seq<char> {
    match t {
        DeviceType::Router => "ROUTER"@,
        DeviceType::Mobile => "MOBILE"@,
        DeviceType::Printer => "PRINTER"@,
        DeviceType::Iot => "IOT"@,
        DeviceType::Pc => "PC"@,
        DeviceType::Unknown => "UNKNOWN"@,
    }
}

impl DeviceType {
    /// The tag text of this device type.
    pub fn as_str(&self) -> (r: &'static str)
        ensures
            r@ == spec_device_type_text(*self),
    {
        match self {
            DeviceType::Router => "ROUTER",
            DeviceType::Mobile => "MOBILE",
            DeviceType::Printer => "PRINTER",
            DeviceType::Iot => "IOT",
            DeviceType::Pc => "PC",
            DeviceType::Unknown => "UNKNOWN",
        }
    }
}

/// The view of an optional string slice.
pub open spec fn spec_opt_str_view(s: Option<&str>) -> Option<Seq<char>> {
    match s {
        Some(v) => Some(v@),
        None => None,
    }
}

/// Device-type inference rules, first match wins: a gateway of a router
/// vendor is a router; a mobile OUI is a mobile device; a printer or IoT
/// hostname, or an IoT vendor, gives the corresponding tag; the iPhone sync
/// port marks a mobile device; SMB or RDP marks a PC.
pub open spec fn spec_infer_device_type(
    vendor: Option<Seq<char>>,
    hostname: Option<Seq<char>>,
    open_ports: Seq<u16>,
    is_gateway: bool,
) -> DeviceType {
    if is_gateway && vendor is Some && spec_is_router_vendor(vendor->0) {
        DeviceType::Router
    } else if vendor is Some && spec_is_mobile_vendor(vendor->0) {
        DeviceType::Mobile
    } else if hostname is Some && spec_contains_ci(hostname->0, "printer"@) {
        DeviceType::Printer
    } else if (hostname is Some && spec_contains_ci(hostname->0, "iot"@)) || (vendor is Some
        && spec_is_iot_vendor(vendor->0)) {
        DeviceType::Iot
    } else if open_ports.contains(62078u16) {
        DeviceType::Mobile
    } else if open_ports.contains(445u16) || open_ports.contains(3389u16) {
        DeviceType::Pc
    } else {
        DeviceType::Unknown
    }
}

/// Whether the port list contains a given port.
pub fn ports_contain(ports: &Vec<u16>, p: u16) -> (r: bool)
    ensures
        r == ports@.contains(p),
{
    let n = ports.len();
    for i in 0..n
        invariant
            n == ports@.len(),
            forall|j: int| 0 <= j < i ==> ports@[j] != p,
    {
        if ports[i] == p {
            return true;
        }
    }
    false
}

/// Infers the device type from vendor, hostname, open ports and the
/// gateway hint.
pub fn infer_device_type(
    vendor: Option<&str>,
    hostname: Option<&str>,
    open_ports: &Vec<u16>,
    is_gateway: bool,
) -> (r: DeviceType)
    ensures
        r == spec_infer_device_type(
            spec_opt_str_view(vendor),
            spec_opt_str_view(hostname),
            open_ports@,
            is_gateway,
        ),
{
    if is_gateway && (match vendor {
        Some(v) => crate::vendor::is_router_vendor(v),
        None => false,
    }) {
        DeviceType::Router
    } else if (match vendor {
        Some(v) => crate::vendor::is_mobile_vendor(v),
        None => false,
    }) {
        DeviceType::Mobile
    } else if (match hostname {
        Some(h) => crate::iface::str_contains_ci(h, "printer"),
        None => false,
    }) {
        DeviceType::Printer
    } else if (match hostname {
        Some(h) => crate::iface::str_contains_ci(h, "iot"),
        None => false,
    }) || (match vendor {
        Some(v) => crate::vendor::is_iot_vendor(v),
        None => false,
    }) {
        DeviceType::Iot
    } else if ports_contain(open_ports, 62078) {
        DeviceType::Mobile
    } else if ports_contain(open_ports, 445) || ports_contain(open_ports, 3389) {
        DeviceType::Pc
    } else {
        DeviceType::Unknown
    }
}

/// Risk contribution of one open port: sensitive remote-access ports weigh
/// most, lateral-movement ports less, any other open port a little.
pub open spec fn spec_port_risk(p: u16) -> int {
    if p == 23 || p == 21 || p == 3389 {
        20
    } else if p == 445 || p == 5353 {
        10
    } else {
        5
    }
}

/// Total risk contribution of a port list.
pub open spec fn spec_ports_risk(ports: Seq<u16>) -> int
    decreases ports.len(),
{
    if ports.len() == 0 {
        0
    } else {
        spec_ports_risk(ports.drop_last()) + spec_port_risk(ports.last())
    }
}

/// Risk modifier of the device type.
pub open spec fn spec_type_risk(t: DeviceType) -> int {
    match t {
        DeviceType::Router => 10,
        DeviceType::Unknown => 15,
        _ => 0,
    }
}

/// The risk score: a base of 10, plus 30 for a randomized MAC, plus the
/// port contributions and the device-type modifier, clamped to 100.
pub open spec fn spec_risk_score(
    device_type: DeviceType,
    open_ports: Seq<u16>,
    is_randomized: bool,
) -> int {
    let raw = 10 + (if is_randomized {
        30int
    } else {
        0int
    }) + spec_ports_risk(open_ports) + spec_type_risk(device_type);
    if raw > 100 {
        100
    } else {
        raw
    }
}

/// Risk contribution of one open port.
fn port_risk(p: u16) -> (r: u32)
    ensures
        r == spec_port_risk(p),
        5 <= r <= 20,
{
    if p == 23 || p == 21 || p == 3389 {
        20
    } else if p == 445 || p == 5353 {
        10
    } else {
        5
    }
}

/// Computes the 0–100 risk score of a host.
pub fn calculate_risk_score(device_type: DeviceType, open_ports: &Vec<u16>, is_randomized: bool)
    -> (r: u8)
    ensures
        r == spec_risk_score(device_type, open_ports@, is_randomized),
        r <= 100,
{
    let mut acc: u32 = if is_randomized {
        40
    } else {
        10
    };
    let n = open_ports.len();
    for i in 0..n
        invariant
            n == open_ports@.len(),
            acc == {
                let raw = 10 + (if is_randomized {
                    30int
                } else {
                    0int
                }) + spec_ports_risk(open_ports@.take(i as int));
                if raw > 100 {
                    100int
                } else {
                    raw
                }
            },
            acc <= 100,
    {
        proof {
            assert(open_ports@.take(i + 1).drop_last() =~= open_ports@.take(i as int));
            assert(open_ports@.take(i + 1).last() == open_ports@[i as int]);
        }
        acc = acc + port_risk(open_ports[i]);
        if acc > 100 {
            acc = 100;
        }
    }
    proof {
        assert(open_ports@.take(n as int) =~= open_ports@);
    }
    let typed: u32 = acc + (match device_type {
        DeviceType::Router => 10,
        DeviceType::Unknown => 15,
        _ => 0,
    });
    let clamped: u32 = if typed > 100 {
        100
    } else {
        typed
    };
    clamped as u8
}

/// The OS family guessed from an ICMP TTL: Unix-likes reply with up to 64,
/// Windows with up to 128, network devices above that.
pub open spec fn spec_os_guess(ttl: u8) -> Seq<char> {
    if ttl <= 64 {
        "Linux/Unix"@
    } else if ttl <= 128 {
        "Windows"@
    } else {
        "Network Device"@
    }
}

/// Guesses the OS family from the TTL of an ICMP reply.
pub fn guess_os_from_ttl(ttl: u8) -> (r: String)
    ensures
        r@ == spec_os_guess(ttl),
{
    if ttl <= 64 {
        String::from_str("Linux/Unix")
    } else if ttl <= 128 {
        String::from_str("Windows")
    } else {
        String::from_str("Network Device")
    }
}

/// The well-known service name of a port.
pub open spec fn spec_service_name(port: u16) -> Seq<char> {
    if port == 20 {
        "FTP Data"@
    } else if port == 21 {
        "FTP"@
    } else if port == 22 {
        "SSH"@
    } else if port == 23 {
        "Telnet"@
    } else if port == 25 {
        "SMTP"@
    } else if port == 53 {
        "DNS"@
    } else if port == 80 {
        "HTTP"@
    } else if port == 110 {
        "POP3"@
    } else if port == 143 {
        "IMAP"@
    } else if port == 443 {
        "HTTPS"@
    } else if port == 445 {
        "SMB"@
    } else if port == 3306 {
        "MySQL"@
    } else if port == 3389 {
        "RDP"@
    } else if port == 5432 {
        "PostgreSQL"@
    } else if port == 8080 {
        "HTTP Alt"@
    } else {
        "Unknown"@
    }
}

/// Get common service name for a port.
pub fn get_service_name(port: u16) -> (r: String)
    ensures
        r@ == spec_service_name(port),
{
    if port == 20 {
        String::from_str("FTP Data")
    } else if port == 21 {
        String::from_str("FTP")
    } else if port == 22 {
        String::from_str("SSH")
    } else if port == 23 {
        String::from_str("Telnet")
    } else if port == 25 {
        String::from_str("SMTP")
    } else if port == 53 {
        String::from_str("DNS")
    } else if port == 80 {
        String::from_str("HTTP")
    } else if port == 110 {
        String::from_str("POP3")
    } else if port == 143 {
        String::from_str("IMAP")
    } else if port == 443 {
        String::from_str("HTTPS")
    } else if port == 445 {
        String::from_str("SMB")
    } else if port == 3306 {
        String::from_str("MySQL")
    } else if port == 3389 {
        String::from_str("RDP")
    } else if port == 5432 {
        String::from_str("PostgreSQL")
    } else if port == 8080 {
        String::from_str("HTTP Alt")
    } else {
        String::from_str("Unknown")
    }
}

/// The outcome of probing one port on a target host.
#[derive(Debug)]
pub struct PortScanResult {
    pub port: u16,
    pub is_open: bool,
    pub service: Option<String>,
}

/// Builds the record for one probed port: an open port carries its
/// service name, a closed one carries none.
pub fn make_port_scan_result(port: u16, is_open: bool) -> (r: PortScanResult)
    ensures
        r.port == port,
        r.is_open == is_open,
        is_open ==> r.service is Some && r.service->0@ == spec_service_name(port),
        !is_open ==> r.service is None,
{
    let service = if is_open {
        Some(get_service_name(port))
    } else {
        None
    };
    PortScanResult { port, is_open, service }
}

} // verus!
