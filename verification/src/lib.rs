//! LAN host-discovery and continuous-monitoring engine.
//!
//! The library covers the scan pipeline — interface selection, subnet
//! calculation, ARP sweep bookkeeping, enrichment (vendor, device type,
//! risk score, OS guess), result assembly — and the background monitor
//! that diffs successive snapshots and emits change events.

pub mod arp;
pub mod config;
pub mod crypto;
pub mod device;
pub mod errors;
pub mod events;
pub mod iface;
pub mod mac;
pub mod models;
pub mod monitor;
pub mod scan;
pub mod subnet;
pub mod text;
pub mod vendor;

pub use device::{
    calculate_risk_score, get_service_name, guess_os_from_ttl, infer_device_type, DeviceType,
    PortScanResult,
};
pub use events::{DeviceSnapshot, MonitoringStatus, NetworkEvent};
pub use iface::{find_valid_interface, interface_score, InterfaceInfo};
pub use models::{HostInfo, NeighborInfo, ScanResult};
pub use monitor::{detect_changes, BackgroundMonitor};
pub use scan::assemble_scan_result;
pub use subnet::{calculate_subnet_ips, is_local_subnet, is_special_address};
pub use vendor::{lookup_mac_vendor, lookup_vendor, lookup_vendor_info, VendorLookupResult};
