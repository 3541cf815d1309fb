//! Result records of a scan and their well-formedness.

use vstd::prelude::*;

use crate::iface::spec_contains_ci;
use crate::mac::{spec_is_locally_administered, spec_mac_text, MacAddr};
use crate::text::spec_ipv4_text;

verus! {

/// Information about a network neighbor (from LLDP/CDP enrichment).
#[derive(Debug)]
pub struct NeighborInfo {
    pub local_port: String,
    pub remote_device: String,
    pub remote_port: String,
    pub remote_ip: Option<String>,
}

impl Clone for NeighborInfo {
    /// Field-for-field copy.
    fn clone(&self) -> (r: Self)
        ensures
            r == *self,
    {
        NeighborInfo {
            local_port: self.local_port.clone(),
            remote_device: self.remote_device.clone(),
            remote_port: self.remote_port.clone(),
            remote_ip: match &self.remote_ip {
                Some(s) => Some(s.clone()),
                None => None,
            },
        }
    }
}

/// Canonical record for one discovered device.
#[derive(Debug)]
pub struct HostInfo {
    pub ip: String,
    pub mac: String,
    pub vendor: Option<String>,
    /// True if the MAC is locally administered (randomized/virtual).
    pub is_randomized: bool,
    pub response_time_ms: Option<u64>,
    /// TTL value from the ICMP response (used for OS fingerprinting).
    pub ttl: Option<u8>,
    /// Guessed OS based on the TTL value.
    pub os_guess: Option<String>,
    /// Inferred device type tag (ROUTER, MOBILE, PC, ...).
    pub device_type: String,
    /// Risk score (0–100, higher = more risk).
    pub risk_score: u8,
    pub open_ports: Vec<u16>,
    pub discovery_method: String,
    pub hostname: Option<String>,
    pub system_description: Option<String>,
    pub uptime_seconds: Option<u64>,
    /// LLDP/CDP neighbor discovery (for topology mapping).
    pub neighbors: Vec<NeighborInfo>,
}

/// Result structure for the host discovery scan.
#[derive(Debug)]
pub struct ScanResult {
    pub interface_name: String,
    pub local_ip: String,
    pub local_mac: String,
    pub subnet: String,
    pub scan_method: String,
    pub arp_discovered: usize,
    pub icmp_discovered: usize,
    pub total_hosts: usize,
    pub scan_duration_ms: u64,
    pub active_hosts: Vec<HostInfo>,
}

/// A well-formed host record: risk score in range, ports strictly
/// ascending, MAC in canonical text with the randomized flag derived from
/// its first octet, IP in dotted-quad text, and the entry justified by at
/// least one signal (an ICMP reply, an open port, or ARP discovery).
pub open spec fn spec_host_wf(h: HostInfo) -> bool {
    &&& h.risk_score <= 100
    &&& forall|i: int, j: int|
        0 <= i < j < h.open_ports@.len() ==> h.open_ports@[i] < h.open_ports@[j]
    &&& exists|m: MacAddr|
        h.mac@ == spec_mac_text(m) && h.is_randomized == spec_is_locally_administered(m)
    &&& exists|ip: u32| h.ip@ == spec_ipv4_text(ip)
    &&& (h.response_time_ms is Some || h.open_ports@.len() > 0 || spec_contains_ci(
        h.discovery_method@,
        "ARP"@,
    ))
}

/// `nums` are the numeric IPv4 addresses behind the hosts' IP texts, in
/// strictly ascending order.
pub open spec fn spec_ip_keys(hosts: Seq<HostInfo>, nums: Seq<u32>) -> bool {
    &&& nums.len() == hosts.len()
    &&& forall|i: int| 0 <= i < nums.len() ==> hosts[i].ip@ == spec_ipv4_text(#[trigger] nums[i])
    &&& forall|i: int, j: int| 0 <= i < j < nums.len() ==> nums[i] < nums[j]
}

/// The host list is sorted by numeric IPv4 ascending (strictly, so no
/// address appears twice).
pub open spec fn spec_hosts_sorted_by_ip(hosts: Seq<HostInfo>) -> bool {
    exists|nums: Seq<u32>| #[trigger] spec_ip_keys(hosts, nums)
}

/// Position `li` holds the one synthetic entry for the local machine.
pub open spec fn spec_local_at(s: ScanResult, li: int) -> bool {
    &&& 0 <= li < s.active_hosts@.len()
    &&& s.active_hosts@[li].discovery_method@ == "LOCAL"@
    &&& s.active_hosts@[li].ip@ == s.local_ip@
    &&& forall|j: int|
        0 <= j < s.active_hosts@.len() && j != li
            ==> (#[trigger] s.active_hosts@[j].discovery_method@) != "LOCAL"@
}

/// Exactly one host entry is the local machine.
pub open spec fn spec_exactly_one_local(s: ScanResult) -> bool {
    exists|li: int| #[trigger] spec_local_at(s, li)
}

/// A well-formed scan result: every host well-formed, hosts sorted by
/// numeric IPv4, exactly one LOCAL entry, the host count consistent, and
/// no more ICMP responders than ARP-discovered hosts.
pub open spec fn spec_scan_result_wf(s: ScanResult) -> bool {
    &&& forall|i: int|
        0 <= i < s.active_hosts@.len() ==> spec_host_wf(#[trigger] s.active_hosts@[i])
    &&& s.total_hosts == s.active_hosts@.len()
    &&& s.arp_discovered >= s.icmp_discovered
    &&& spec_hosts_sorted_by_ip(s.active_hosts@)
    &&& spec_exactly_one_local(s)
}

/// The numeric addresses behind a host list's IP texts are uniquely
/// determined: dotted-quad text renders no two addresses alike, so the
/// ordering that `spec_hosts_sorted_by_ip` asserts is a fact about the
/// texts themselves.
pub proof fn lemma_ip_keys_unique(hosts: Seq<HostInfo>, nums1: Seq<u32>, nums2: Seq<u32>)
    requires
        spec_ip_keys(hosts, nums1),
        spec_ip_keys(hosts, nums2),
    ensures
        nums1 =~= nums2,
{
    assert forall|i: int| 0 <= i < nums1.len() implies nums1[i] == nums2[i] by {
        crate::text::lemma_ipv4_text_injective(nums1[i], nums2[i]);
    }
}

/// A well-formed host's randomized flag is exactly the locally-administered
/// bit of its MAC text: parse the text, mask the first octet with 0x02.
pub proof fn lemma_host_randomized_flag(h: HostInfo)
    requires
        spec_host_wf(h),
    ensures
        crate::mac::spec_parse_mac(h.mac@) is Some,
        h.is_randomized <==> (crate::mac::spec_parse_mac(h.mac@)->0.o0 & 2) != 0,
{
    let m = choose|m: MacAddr|
        h.mac@ == spec_mac_text(m) && h.is_randomized == spec_is_locally_administered(m);
    crate::mac::lemma_mac_text_roundtrip(m);
}

} // verus!
