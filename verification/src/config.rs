//! Configuration constants of the scan pipeline and the monitor.

use vstd::prelude::*;

verus! {

/// Maximum concurrent ping operations.
pub const MAX_CONCURRENT_PINGS: usize = 100;

/// Timeout for each ICMP ping request, in milliseconds.
pub const PING_TIMEOUT_MS: u64 = 2000;

/// Number of ping attempts per host.
pub const PING_RETRIES: u8 = 2;

/// Default subnet prefix length when the interface does not provide one.
pub const DEFAULT_PREFIX_LEN: u8 = 24;

/// Maximum total wait time for ARP replies in one round, in milliseconds.
pub const ARP_MAX_WAIT_MS: u64 = 1500;

/// Interval at which the ARP receiver checks for new hosts, in milliseconds.
pub const ARP_CHECK_INTERVAL_MS: u64 = 200;

/// An ARP round stops early when no new host appeared for this long
/// (and at least one host was found), in milliseconds.
pub const ARP_IDLE_TIMEOUT_MS: u64 = 400;

/// Number of ARP sweep rounds; the second round re-requests stragglers.
pub const ARP_ROUNDS: u8 = 2;

/// TCP probe timeout, in milliseconds.
pub const TCP_PROBE_TIMEOUT_MS: u64 = 500;

/// Maximum concurrent reverse-DNS lookups.
pub const MAX_CONCURRENT_DNS: usize = 10;

/// Reverse-DNS per-query timeout, in milliseconds.
pub const DNS_TIMEOUT_MS: u64 = 2000;

/// Default monitor cadence, in seconds.
pub const DEFAULT_MONITOR_INTERVAL: u64 = 300;

/// Smallest accepted monitor cadence, in seconds.
pub const MIN_MONITOR_INTERVAL: u64 = 30;

/// Largest accepted monitor cadence, in seconds.
pub const MAX_MONITOR_INTERVAL: u64 = 3600;

/// Whether SNMP enrichment runs after discovery.
pub const SNMP_ENABLED: bool = false;

/// SNMP port.
pub const SNMP_PORT: u16 = 161;

/// The fixed port list probed on every discovered host, ascending.
pub open spec fn spec_tcp_probe_ports() -> Seq<u16> {
    seq![22u16, 80u16, 443u16, 445u16, 3389u16, 5353u16, 8080u16, 62078u16]
}

/// Common ports probed for host detection, ascending.
pub fn tcp_probe_ports() -> (r: Vec<u16>)
    ensures
        r@ == spec_tcp_probe_ports(),
        forall|i: int, j: int| 0 <= i < j < r@.len() ==> r@[i] < r@[j],
{
    let v: Vec<u16> = vec![22u16, 80u16, 443u16, 445u16, 3389u16, 5353u16, 8080u16, 62078u16];
    proof {
        assert(v@ =~= spec_tcp_probe_ports());
    }
    v
}

} // verus!
