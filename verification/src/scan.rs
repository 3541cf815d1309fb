//! Result assembly: merges the ARP, ICMP, TCP, DNS and SNMP phase outputs
//! into the enriched, sorted `ScanResult`.

use vstd::prelude::*;
use vstd::seq_lib::*;

use crate::device::{
    spec_device_type_text, spec_infer_device_type, spec_os_guess, spec_risk_score,
};
use crate::iface::{spec_contains_ci, spec_iface_wf, InterfaceInfo};
use crate::mac::{spec_is_locally_administered, spec_mac_text, MacAddr};
use crate::models::{
    spec_host_wf, spec_ip_keys, spec_local_at, spec_scan_result_wf, HostInfo, NeighborInfo,
    ScanResult,
};
use crate::subnet::{spec_net_wf, Ipv4Net};
use crate::text::{spec_ip_octet, spec_ipv4_text, spec_u8_text};
use crate::vendor::{spec_opt_view, spec_oui_vendor};

verus! {

/// One ARP discovery: a host's IPv4 address and its MAC.
#[derive(Clone, Copy, PartialEq, Eq, Structural, Debug)]
pub struct ArpEntry {
    pub ip: u32,
    pub mac: MacAddr,
}

/// One ICMP echo response: round-trip time and the reply's TTL.
#[derive(Clone, Copy, PartialEq, Eq, Structural, Debug)]
pub struct IcmpEntry {
    pub ip: u32,
    pub rtt_ms: u64,
    pub ttl: Option<u8>,
}

/// The open ports found on one host, ascending.
#[derive(Debug)]
pub struct TcpEntry {
    pub ip: u32,
    pub open_ports: Vec<u16>,
}

/// One resolved PTR record.
#[derive(Debug)]
pub struct DnsEntry {
    pub ip: u32,
    pub hostname: String,
}

/// SNMP enrichment data for one host.
#[derive(Debug)]
pub struct SnmpEntry {
    pub ip: u32,
    pub hostname: Option<String>,
    pub system_description: Option<String>,
    pub uptime_seconds: Option<u64>,
    pub neighbors: Vec<NeighborInfo>,
}

/// First ICMP record for an address.
pub open spec fn spec_find_icmp(s: Seq<IcmpEntry>, ip: u32) -> Option<IcmpEntry>
    decreases s.len(),
{
    if s.len() == 0 {
        None
    } else if s[0].ip == ip {
        Some(s[0])
    } else {
        spec_find_icmp(s.drop_first(), ip)
    }
}

/// First TCP record for an address.
pub open spec fn spec_find_tcp(s: Seq<TcpEntry>, ip: u32) -> Option<TcpEntry>
    decreases s.len(),
{
    if s.len() == 0 {
        None
    } else if s[0].ip == ip {
        Some(s[0])
    } else {
        spec_find_tcp(s.drop_first(), ip)
    }
}

/// First DNS record for an address.
pub open spec fn spec_find_dns(s: Seq<DnsEntry>, ip: u32) -> Option<DnsEntry>
    decreases s.len(),
{
    if s.len() == 0 {
        None
    } else if s[0].ip == ip {
        Some(s[0])
    } else {
        spec_find_dns(s.drop_first(), ip)
    }
}

/// First SNMP record for an address.
pub open spec fn spec_find_snmp(s: Seq<SnmpEntry>, ip: u32) -> Option<SnmpEntry>
    decreases s.len(),
{
    if s.len() == 0 {
        None
    } else if s[0].ip == ip {
        Some(s[0])
    } else {
        spec_find_snmp(s.drop_first(), ip)
    }
}

/// Finds the ICMP record of an address.
fn find_icmp(s: &Vec<IcmpEntry>, ip: u32) -> (r: Option<IcmpEntry>)
    ensures
        r == spec_find_icmp(s@, ip),
{
    let n = s.len();
    assert(s@.skip(0) =~= s@);
    for i in 0..n
        invariant
            n == s@.len(),
            spec_find_icmp(s@, ip) == spec_find_icmp(s@.skip(i as int), ip),
    {
        proof {
            assert(s@.skip(i as int)[0] == s@[i as int]);
            assert(s@.skip(i as int).drop_first() =~= s@.skip(i + 1));
        }
        if s[i].ip == ip {
            return Some(s[i]);
        }
    }
    proof {
        assert(s@.skip(n as int).len() == 0);
    }
    None
}

/// Finds the index of the TCP record of an address.
fn find_tcp(s: &Vec<TcpEntry>, ip: u32) -> (r: Option<usize>)
    ensures
        match r {
            Some(k) => 0 <= k < s@.len() && spec_find_tcp(s@, ip) == Some(s@[k as int]),
            None => spec_find_tcp(s@, ip) is None,
        },
{
    let n = s.len();
    assert(s@.skip(0) =~= s@);
    for i in 0..n
        invariant
            n == s@.len(),
            spec_find_tcp(s@, ip) == spec_find_tcp(s@.skip(i as int), ip),
    {
        proof {
            assert(s@.skip(i as int)[0] == s@[i as int]);
            assert(s@.skip(i as int).drop_first() =~= s@.skip(i + 1));
        }
        if s[i].ip == ip {
            return Some(i);
        }
    }
    proof {
        assert(s@.skip(n as int).len() == 0);
    }
    None
}

/// Finds the index of the DNS record of an address.
fn find_dns(s: &Vec<DnsEntry>, ip: u32) -> (r: Option<usize>)
    ensures
        match r {
            Some(k) => 0 <= k < s@.len() && spec_find_dns(s@, ip) == Some(s@[k as int]),
            None => spec_find_dns(s@, ip) is None,
        },
{
    let n = s.len();
    assert(s@.skip(0) =~= s@);
    for i in 0..n
        invariant
            n == s@.len(),
            spec_find_dns(s@, ip) == spec_find_dns(s@.skip(i as int), ip),
    {
        proof {
            assert(s@.skip(i as int)[0] == s@[i as int]);
            assert(s@.skip(i as int).drop_first() =~= s@.skip(i + 1));
        }
        if s[i].ip == ip {
            return Some(i);
        }
    }
    proof {
        assert(s@.skip(n as int).len() == 0);
    }
    None
}

/// Finds the index of the SNMP record of an address.
fn find_snmp(s: &Vec<SnmpEntry>, ip: u32) -> (r: Option<usize>)
    ensures
        match r {
            Some(k) => 0 <= k < s@.len() && spec_find_snmp(s@, ip) == Some(s@[k as int]),
            None => spec_find_snmp(s@, ip) is None,
        },
{
    let n = s.len();
    assert(s@.skip(0) =~= s@);
    for i in 0..n
        invariant
            n == s@.len(),
            spec_find_snmp(s@, ip) == spec_find_snmp(s@.skip(i as int), ip),
    {
        proof {
            assert(s@.skip(i as int)[0] == s@[i as int]);
            assert(s@.skip(i as int).drop_first() =~= s@.skip(i + 1));
        }
        if s[i].ip == ip {
            return Some(i);
        }
    }
    proof {
        assert(s@.skip(n as int).len() == 0);
    }
    None
}

/// The discovery-method tag: the signals that justified the host, in order.
pub open spec fn spec_method_text(has_icmp: bool, has_tcp: bool, has_snmp: bool) -> Seq<char> {
    "ARP"@ + (if has_icmp {
        "+ICMP"@
    } else {
        Seq::<char>::empty()
    }) + (if has_tcp {
        "+TCP"@
    } else {
        Seq::<char>::empty()
    }) + (if has_snmp {
        "+SNMP"@
    } else {
        Seq::<char>::empty()
    })
}

/// Renders the discovery-method tag.
pub fn discovery_method_string(has_icmp: bool, has_tcp: bool, has_snmp: bool) -> (r: String)
    ensures
        r@ == spec_method_text(has_icmp, has_tcp, has_snmp),
{
    let mut s = String::from_str("ARP");
    if has_icmp {
        s.append("+ICMP");
    }
    if has_tcp {
        s.append("+TCP");
    }
    if has_snmp {
        s.append("+SNMP");
    }
    assert(s@ =~= spec_method_text(has_icmp, has_tcp, has_snmp));
    s
}

/// Every discovery-method tag names ARP.
proof fn lemma_method_contains_arp(has_icmp: bool, has_tcp: bool, has_snmp: bool)
    ensures
        spec_contains_ci(spec_method_text(has_icmp, has_tcp, has_snmp), "ARP"@),
{
    reveal_strlit("ARP");
    let m = spec_method_text(has_icmp, has_tcp, has_snmp);
    assert(forall|j: int| 0 <= j < 3 ==> #[trigger] m[j] == "ARP"@[j]);
    assert(crate::iface::spec_matches_ci_at(m, "ARP"@, 0));
}

/// No discovery-method tag reads LOCAL.
proof fn lemma_method_not_local(has_icmp: bool, has_tcp: bool, has_snmp: bool)
    ensures
        spec_method_text(has_icmp, has_tcp, has_snmp) != "LOCAL"@,
{
    reveal_strlit("ARP");
    reveal_strlit("LOCAL");
    let m = spec_method_text(has_icmp, has_tcp, has_snmp);
    assert(m[0] == 'A');
}

/// A host with no ICMP reply, no open port and no SNMP data keeps the
/// bare ARP tag.
pub proof fn lemma_arp_only_method()
    ensures
        spec_method_text(false, false, false) == "ARP"@,
{
    assert(spec_method_text(false, false, false) =~= "ARP"@);
}

/// CIDR text of a subnet.
pub open spec fn spec_cidr_text(n: Ipv4Net) -> Seq<char> {
    spec_ipv4_text(n.network) + seq!['/'] + spec_u8_text(n.prefix)
}

/// Renders a subnet in CIDR notation.
pub fn cidr_to_string(n: &Ipv4Net) -> (r: String)
    ensures
        r@ == spec_cidr_text(*n),
{
    proof {
        reveal_strlit("/");
    }
    let mut s = crate::text::ipv4_to_string(n.network);
    s.append("/");
    crate::text::push_u8_text(&mut s, n.prefix);
    assert(s@ =~= spec_cidr_text(*n));
    s
}

/// Copies a port list.
fn clone_ports(v: &Vec<u16>) -> (r: Vec<u16>)
    ensures
        r@ == v@,
{
    let mut r: Vec<u16> = Vec::new();
    let n = v.len();
    for i in 0..n
        invariant
            n == v@.len(),
            r@ =~= v@.take(i as int),
    {
        r.push(v[i]);
    }
    assert(v@.take(n as int) =~= v@);
    r
}

/// Copies an optional string.
fn clone_opt_string(v: &Option<String>) -> (r: Option<String>)
    ensures
        r == *v,
{
    match v {
        Some(s) => Some(s.clone()),
        None => None,
    }
}

/// Copies a neighbor list.
fn clone_neighbors(v: &Vec<NeighborInfo>) -> (r: Vec<NeighborInfo>)
    ensures
        r@ == v@,
{
    let mut r: Vec<NeighborInfo> = Vec::new();
    let n = v.len();
    for i in 0..n
        invariant
            n == v@.len(),
            r@ =~= v@.take(i as int),
    {
        r.push(v[i].clone());
        assert(r@ =~= v@.take(i + 1));
    }
    assert(v@.take(n as int) =~= v@);
    r
}

/// The synthetic row under which the local machine is merged in.
pub open spec fn spec_local_entry(iface: InterfaceInfo) -> ArpEntry {
    ArpEntry { ip: iface.ip, mac: iface.mac }
}

/// How the local machine's synthetic host entry relates to the interface:
/// tagged LOCAL, zero response time, no probed ports, vendor looked up
/// from the interface MAC.
pub open spec fn spec_local_host_matches(iface: InterfaceInfo, h: HostInfo) -> bool {
    &&& h.ip@ == spec_ipv4_text(iface.ip)
    &&& h.mac@ == spec_mac_text(iface.mac)
    &&& spec_opt_view(h.vendor) == spec_oui_vendor(iface.mac.o0, iface.mac.o1, iface.mac.o2)
    &&& h.is_randomized == spec_is_locally_administered(iface.mac)
    &&& h.response_time_ms == Some(0u64)
    &&& h.ttl is None
    &&& h.os_guess is None
    &&& h.device_type@ == spec_device_type_text(
        spec_infer_device_type(
            spec_oui_vendor(iface.mac.o0, iface.mac.o1, iface.mac.o2),
            None,
            Seq::empty(),
            false,
        ),
    )
    &&& h.risk_score == 0
    &&& h.open_ports@ == Seq::<u16>::empty()
    &&& h.discovery_method@ == "LOCAL"@
    &&& h.hostname is None
    &&& h.system_description is None
    &&& h.uptime_seconds is None
    &&& h.neighbors@ == Seq::<NeighborInfo>::empty()
}

/// How a discovered host's record relates to the phase outputs for its
/// address: every field is determined by the ARP entry and the first
/// matching ICMP, TCP, DNS and SNMP records.
pub open spec fn spec_host_matches(
    e: ArpEntry,
    icmp: Seq<IcmpEntry>,
    tcp: Seq<TcpEntry>,
    dns: Seq<DnsEntry>,
    snmp: Seq<SnmpEntry>,
    h: HostInfo,
) -> bool {
    let vend = spec_oui_vendor(e.mac.o0, e.mac.o1, e.mac.o2);
    let icmp_hit = spec_find_icmp(icmp, e.ip);
    let ports = match spec_find_tcp(tcp, e.ip) {
        Some(t) => t.open_ports@,
        None => Seq::<u16>::empty(),
    };
    let snmp_hit = spec_find_snmp(snmp, e.ip);
    let hostname_view = match spec_find_dns(dns, e.ip) {
        Some(d) => Some(d.hostname@),
        None => match snmp_hit {
            Some(se) => match se.hostname {
                Some(hn) => Some(hn@),
                None => None,
            },
            None => None,
        },
    };
    let is_gateway = spec_ip_octet(e.ip, 3) == 1 || ports.contains(80u16);
    let dtype = spec_infer_device_type(vend, hostname_view, ports, is_gateway);
    &&& h.ip@ == spec_ipv4_text(e.ip)
    &&& h.mac@ == spec_mac_text(e.mac)
    &&& spec_opt_view(h.vendor) == vend
    &&& h.is_randomized == spec_is_locally_administered(e.mac)
    &&& h.response_time_ms == (match icmp_hit {
        Some(ie) => Some(ie.rtt_ms),
        None => None::<u64>,
    })
    &&& h.ttl == (match icmp_hit {
        Some(ie) => ie.ttl,
        None => None::<u8>,
    })
    &&& spec_opt_view(h.os_guess) == (match icmp_hit {
        Some(ie) => match ie.ttl {
            Some(t) => Some(spec_os_guess(t)),
            None => None::<Seq<char>>,
        },
        None => None::<Seq<char>>,
    })
    &&& h.open_ports@ == ports
    &&& h.device_type@ == spec_device_type_text(dtype)
    &&& h.risk_score == spec_risk_score(dtype, ports, spec_is_locally_administered(e.mac))
    &&& h.discovery_method@ == spec_method_text(
        icmp_hit is Some,
        ports.len() > 0,
        snmp_hit is Some,
    )
    &&& spec_opt_view(h.hostname) == hostname_view
    &&& spec_opt_view(h.system_description) == (match snmp_hit {
        Some(se) => spec_opt_view(se.system_description),
        None => None::<Seq<char>>,
    })
    &&& h.uptime_seconds == (match snmp_hit {
        Some(se) => se.uptime_seconds,
        None => None::<u64>,
    })
    &&& h.neighbors@ == (match snmp_hit {
        Some(se) => se.neighbors@,
        None => Seq::<NeighborInfo>::empty(),
    })
}

/// A merged row is either the local machine's synthetic entry or a
/// discovered host, told apart by the address.
pub open spec fn spec_row_matches(
    iface: InterfaceInfo,
    icmp: Seq<IcmpEntry>,
    tcp: Seq<TcpEntry>,
    dns: Seq<DnsEntry>,
    snmp: Seq<SnmpEntry>,
    e: ArpEntry,
    h: HostInfo,
) -> bool {
    if e.ip == iface.ip {
        spec_local_host_matches(iface, h)
    } else {
        spec_host_matches(e, icmp, tcp, dns, snmp, h)
    }
}

/// Each TCP record's port list is strictly ascending.
pub open spec fn spec_tcp_wf(tcp: Seq<TcpEntry>) -> bool {
    forall|k: int|
        0 <= k < tcp.len() ==> (forall|i: int, j: int|
            0 <= i < j < (#[trigger] tcp[k]).open_ports@.len() ==> tcp[k].open_ports@[i]
                < tcp[k].open_ports@[j])
}

/// The found TCP record's ports are ascending.
proof fn lemma_find_tcp_wf(tcp: Seq<TcpEntry>, ip: u32)
    requires
        spec_tcp_wf(tcp),
        spec_find_tcp(tcp, ip) is Some,
    ensures
        forall|i: int, j: int|
            0 <= i < j < spec_find_tcp(tcp, ip)->0.open_ports@.len() ==> spec_find_tcp(tcp, ip)->0.open_ports@[i]
                < spec_find_tcp(tcp, ip)->0.open_ports@[j],
    decreases tcp.len(),
{
    if tcp.len() > 0 && tcp[0].ip != ip {
        assert(forall|k: int|
            0 <= k < tcp.drop_first().len() ==> tcp.drop_first()[k] == tcp[k + 1]);
        lemma_find_tcp_wf(tcp.drop_first(), ip);
    }
}

/// Builds the synthetic host entry for the local machine.
pub fn build_local_host(iface: &InterfaceInfo) -> (h: HostInfo)
    ensures
        spec_local_host_matches(*iface, h),
        spec_host_wf(h),
{
    let vendor = crate::vendor::lookup_vendor(&iface.mac);
    let empty_ports: Vec<u16> = Vec::new();
    let dtype = crate::device::infer_device_type(
        match &vendor {
            Some(v) => Some(v.as_str()),
            None => None,
        },
        None,
        &empty_ports,
        false,
    );
    let h = HostInfo {
        ip: crate::text::ipv4_to_string(iface.ip),
        mac: crate::mac::mac_to_string(&iface.mac),
        vendor,
        is_randomized: crate::mac::is_locally_administered(&iface.mac),
        response_time_ms: Some(0),
        ttl: None,
        os_guess: None,
        device_type: String::from_str(dtype.as_str()),
        risk_score: 0,
        open_ports: empty_ports,
        discovery_method: String::from_str("LOCAL"),
        hostname: None,
        system_description: None,
        uptime_seconds: None,
        neighbors: Vec::new(),
    };
    h
}

/// Builds the enriched record of one discovered host.
pub fn build_host(
    e: ArpEntry,
    icmp: &Vec<IcmpEntry>,
    tcp: &Vec<TcpEntry>,
    dns: &Vec<DnsEntry>,
    snmp: &Vec<SnmpEntry>,
) -> (h: HostInfo)
    requires
        spec_tcp_wf(tcp@),
    ensures
        spec_host_matches(e, icmp@, tcp@, dns@, snmp@, h),
        spec_host_wf(h),
{
    let vendor = crate::vendor::lookup_vendor(&e.mac);
    let is_rand = crate::mac::is_locally_administered(&e.mac);
    let icmp_hit = find_icmp(icmp, e.ip);
    let ports: Vec<u16> = match find_tcp(tcp, e.ip) {
        Some(k) => clone_ports(&tcp[k].open_ports),
        None => Vec::new(),
    };
    let snmp_idx = find_snmp(snmp, e.ip);
    let hostname: Option<String> = match find_dns(dns, e.ip) {
        Some(k) => Some(dns[k].hostname.clone()),
        None => match snmp_idx {
            Some(k) => clone_opt_string(&snmp[k].hostname),
            None => None,
        },
    };
    let is_gateway = crate::text::ip_octet(e.ip, 3) == 1 || crate::device::ports_contain(
        &ports,
        80,
    );
    let dtype = crate::device::infer_device_type(
        match &vendor {
            Some(v) => Some(v.as_str()),
            None => None,
        },
        match &hostname {
            Some(hn) => Some(hn.as_str()),
            None => None,
        },
        &ports,
        is_gateway,
    );
    let risk = crate::device::calculate_risk_score(dtype, &ports, is_rand);
    let (rtt, ttl): (Option<u64>, Option<u8>) = match icmp_hit {
        Some(ie) => (Some(ie.rtt_ms), ie.ttl),
        None => (None, None),
    };
    let os_guess: Option<String> = match ttl {
        Some(t) => Some(crate::device::guess_os_from_ttl(t)),
        None => None,
    };
    let method = discovery_method_string(
        match icmp_hit {
            Some(_) => true,
            None => false,
        },
        ports.len() > 0,
        match snmp_idx {
            Some(_) => true,
            None => false,
        },
    );
    let (sysdesc, uptime, neighbors): (Option<String>, Option<u64>, Vec<NeighborInfo>) =
        match snmp_idx {
        Some(k) => (
            clone_opt_string(&snmp[k].system_description),
            snmp[k].uptime_seconds,
            clone_neighbors(&snmp[k].neighbors),
        ),
        None => (None, None, Vec::new()),
    };
    proof {
        if spec_find_tcp(tcp@, e.ip) is Some {
            lemma_find_tcp_wf(tcp@, e.ip);
        }
        lemma_method_contains_arp(
            spec_find_icmp(icmp@, e.ip) is Some,
            ports@.len() > 0,
            spec_find_snmp(snmp@, e.ip) is Some,
        );
    }
    HostInfo {
        ip: crate::text::ipv4_to_string(e.ip),
        mac: crate::mac::mac_to_string(&e.mac),
        vendor,
        is_randomized: is_rand,
        response_time_ms: rtt,
        ttl,
        os_guess,
        device_type: String::from_str(dtype.as_str()),
        risk_score: risk,
        open_ports: ports,
        discovery_method: method,
        hostname,
        system_description: sysdesc,
        uptime_seconds: uptime,
        neighbors,
    }
}

/// Filters one reverse-DNS answer: a name that merely echoes the IP text
/// is no result.
pub fn filter_ptr_hostname(ip: u32, name: String) -> (r: Option<String>)
    ensures
        name@ == spec_ipv4_text(ip) ==> r is None,
        name@ != spec_ipv4_text(ip) ==> r == Some(name),
{
    let ip_text = crate::text::ipv4_to_string(ip);
    if crate::text::str_eq(name.as_str(), ip_text.as_str()) {
        None
    } else {
        Some(name)
    }
}

/// No two ARP entries report the same address.
pub open spec fn spec_unique_ips(s: Seq<ArpEntry>) -> bool {
    forall|i: int, j: int| 0 <= i < j < s.len() ==> s[i].ip != s[j].ip
}

/// The ARP entries other than the local interface's own, in order.
pub open spec fn spec_others(arp: Seq<ArpEntry>, local_ip: u32) -> Seq<ArpEntry> {
    arp.filter_map(
        |e: ArpEntry|
            if e.ip != local_ip {
                Some(e)
            } else {
                None
            },
    )
}

/// The ARP entries that also answered ICMP, in order.
pub open spec fn spec_icmp_hits(arp: Seq<ArpEntry>, icmp: Seq<IcmpEntry>) -> Seq<ArpEntry> {
    arp.filter_map(
        |e: ArpEntry|
            if spec_find_icmp(icmp, e.ip) is Some {
                Some(e)
            } else {
                None
            },
    )
}

/// What remains after a selective map is never longer than the input.
proof fn lemma_filter_map_len_le<A, B>(s: Seq<A>, f: spec_fn(A) -> Option<B>)
    ensures
        s.filter_map(f).len() <= s.len(),
    decreases s.len(),
{
    if s.len() > 0 {
        lemma_filter_map_len_le(s.drop_last(), f);
    }
}

/// Keeps the ARP entries whose address is not the local interface's own.
fn filter_arp(arp: &Vec<ArpEntry>, local_ip: u32) -> (r: Vec<ArpEntry>)
    requires
        spec_unique_ips(arp@),
    ensures
        r@ == spec_others(arp@, local_ip),
        spec_unique_ips(r@),
        forall|j: int| 0 <= j < r@.len() ==> (#[trigger] r@[j]).ip != local_ip,
{
    let ghost f = |e: ArpEntry|
        if e.ip != local_ip {
            Some(e)
        } else {
            None
        };
    let mut r: Vec<ArpEntry> = Vec::new();
    let n = arp.len();
    for i in 0..n
        invariant
            n == arp@.len(),
            spec_unique_ips(arp@),
            f == (|e: ArpEntry|
                if e.ip != local_ip {
                    Some(e)
                } else {
                    None
                }),
            r@ == arp@.take(i as int).filter_map(f),
            forall|j: int|
                0 <= j < r@.len() ==> exists|k: int| 0 <= k < i && #[trigger] r@[j] == arp@[k],
            forall|j: int| 0 <= j < r@.len() ==> (#[trigger] r@[j]).ip != local_ip,
            spec_unique_ips(r@),
    {
        proof {
            arp@.lemma_filter_map_take_succ(f, i as int);
        }
        if arp[i].ip != local_ip {
            proof {
                assert forall|j: int| 0 <= j < r@.len() implies (#[trigger] r@[j]).ip
                    != arp@[i as int].ip by {
                    let k = choose|k: int| 0 <= k < i && r@[j] == arp@[k];
                    assert(arp@[k].ip != arp@[i as int].ip);
                }
            }
            r.push(arp[i]);
        }
    }
    proof {
        assert(arp@.take(n as int) =~= arp@);
    }
    r
}

/// The entries are sorted by address, ascending.
pub open spec fn spec_sorted_by_ip(s: Seq<ArpEntry>) -> bool {
    forall|i: int, j: int| 0 <= i < j < s.len() ==> s[i].ip <= s[j].ip
}

/// Inserts an entry into a sorted list, keeping it sorted; returns the
/// position taken.
fn insert_sorted(v: &mut Vec<ArpEntry>, x: ArpEntry) -> (pos: usize)
    requires
        spec_sorted_by_ip(old(v)@),
    ensures
        0 <= pos <= old(v)@.len(),
        final(v)@ == old(v)@.insert(pos as int, x),
        spec_sorted_by_ip(final(v)@),
{
    let n = v.len();
    let mut i: usize = 0;
    while i < n && v[i].ip <= x.ip
        invariant
            n == v@.len(),
            0 <= i <= n,
            forall|j: int| 0 <= j < i ==> (#[trigger] v@[j]).ip <= x.ip,
        decreases n - i,
    {
        i = i + 1;
    }
    let at: usize = i;
    proof {
        v@.insert_ensures(at as int, x);
        assert forall|p: int, q: int|
            0 <= p < q < v@.insert(at as int, x).len() implies v@.insert(at as int, x)[p].ip
            <= v@.insert(at as int, x)[q].ip by {
            let s = v@.insert(at as int, x);
            if p < at && q < at {
            } else if p < at && q == at {
            } else if p == at && q > at {
                assert(s[q] == v@[q - 1]);
                assert(v@[q - 1].ip >= v@[at as int].ip);
            } else if p < at && q > at {
                assert(s[q] == v@[q - 1]);
            } else if p > at && q > at {
                assert(s[p] == v@[p - 1]);
                assert(s[q] == v@[q - 1]);
            } else if p == at && q > at {
            }
        }
    }
    v.insert(at, x);
    at
}

/// Sorts ARP entries by address, ascending; the result holds the same
/// entries.
fn sort_arp(v: &Vec<ArpEntry>) -> (s: Vec<ArpEntry>)
    ensures
        s@.to_multiset() == v@.to_multiset(),
        spec_sorted_by_ip(s@),
{
    broadcast use vstd::seq_lib::group_to_multiset_ensures;
    broadcast use vstd::seq_lib::to_multiset_insert;

    let mut s: Vec<ArpEntry> = Vec::new();
    let n = v.len();
    proof {
        assert(v@.take(0).to_multiset() =~= Seq::<ArpEntry>::empty().to_multiset());
    }
    for i in 0..n
        invariant
            n == v@.len(),
            s@.to_multiset() == v@.take(i as int).to_multiset(),
            spec_sorted_by_ip(s@),
    {
        proof {
            assert(v@.take(i + 1).drop_last() =~= v@.take(i as int));
            assert(v@.take(i + 1) =~= v@.take(i as int).push(v@[i as int]));
            vstd::seq_lib::to_multiset_build(v@.take(i as int), v@[i as int]);
        }
        let ghost prev = s@;
        let pos = insert_sorted(&mut s, v[i]);
        proof {
            vstd::seq_lib::to_multiset_insert(prev, pos as int, v@[i as int]);
        }
    }
    proof {
        assert(v@.take(n as int) =~= v@);
    }
    s
}

/// How the merged row list and the host list relate to the inputs: the
/// rows hold the non-local ARP entries plus the local machine's synthetic
/// entry, strictly ascending by address, and each host record matches its
/// row.
pub open spec fn spec_merged_rows(
    iface: InterfaceInfo,
    arp: Seq<ArpEntry>,
    icmp: Seq<IcmpEntry>,
    tcp: Seq<TcpEntry>,
    dns: Seq<DnsEntry>,
    snmp: Seq<SnmpEntry>,
    merged: Seq<ArpEntry>,
    hosts: Seq<HostInfo>,
) -> bool {
    &&& merged.to_multiset() == spec_others(arp, iface.ip).to_multiset().insert(
        spec_local_entry(iface),
    )
    &&& forall|i: int, j: int| 0 <= i < j < merged.len() ==> merged[i].ip < merged[j].ip
    &&& merged.len() == hosts.len()
    &&& forall|i: int|
        0 <= i < merged.len() ==> spec_row_matches(
            iface,
            icmp,
            tcp,
            dns,
            snmp,
            #[trigger] merged[i],
            hosts[i],
        )
}

/// Assembles the scan result from the phase outputs.
///
/// The active hosts are the ARP-discovered devices (each enriched from the
/// ICMP, TCP, DNS and SNMP records of its address) plus exactly one
/// synthetic entry for the local machine, sorted ascending by numeric
/// IPv4. `arp_discovered` counts every ARP entry, `icmp_discovered` those
/// that also answered ICMP.
pub fn assemble_scan_result(
    interface: &InterfaceInfo,
    net: &Ipv4Net,
    arp: &Vec<ArpEntry>,
    icmp: &Vec<IcmpEntry>,
    tcp: &Vec<TcpEntry>,
    dns: &Vec<DnsEntry>,
    snmp: &Vec<SnmpEntry>,
    scan_duration_ms: u64,
) -> (r: ScanResult)
    requires
        spec_iface_wf(*interface),
        spec_net_wf(*net),
        spec_unique_ips(arp@),
        spec_tcp_wf(tcp@),
    ensures
        spec_scan_result_wf(r),
        r.interface_name@ == interface.name@,
        r.local_ip@ == spec_ipv4_text(interface.ip),
        r.local_mac@ == spec_mac_text(interface.mac),
        r.subnet@ == spec_cidr_text(*net),
        r.scan_method@ == "Active ARP + ICMP"@,
        r.arp_discovered == arp@.len(),
        r.icmp_discovered == spec_icmp_hits(arp@, icmp@).len(),
        r.scan_duration_ms == scan_duration_ms,
        r.total_hosts == r.active_hosts@.len(),
        r.active_hosts@.len() == spec_others(arp@, interface.ip).len() + 1,
        exists|merged: Seq<ArpEntry>|
            #[trigger] spec_merged_rows(
                *interface,
                arp@,
                icmp@,
                tcp@,
                dns@,
                snmp@,
                merged,
                r.active_hosts@,
            ),
{
    broadcast use vstd::seq_lib::group_to_multiset_ensures;
    broadcast use vstd::seq_lib::to_multiset_insert;

    let others = filter_arp(arp, interface.ip);
    let mut merged = sort_arp(&others);
    let ghost sorted_others = merged@;
    proof {
        // Pairwise-distinct addresses make pairwise-distinct entries.
        assert forall|i: int, j: int|
            0 <= i < others@.len() && 0 <= j < others@.len() && i != j implies others@[i]
            != others@[j] by {
            if i < j {
                assert(others@[i].ip != others@[j].ip);
            } else {
                assert(others@[j].ip != others@[i].ip);
            }
        }
        assert(others@.no_duplicates());
        others@.lemma_multiset_has_no_duplicates();
        sorted_others.lemma_multiset_has_no_duplicates_conv();
        // Entries of the sorted list come from `others`: same multiset.
        assert forall|j: int| 0 <= j < sorted_others.len() implies (#[trigger] sorted_others[j]).ip
            != interface.ip by {
            assert(sorted_others.to_multiset().count(sorted_others[j]) > 0);
            assert(others@.contains(sorted_others[j]));
        }
        assert forall|p: int, q: int| 0 <= p < q < sorted_others.len() implies sorted_others[p].ip
            < sorted_others[q].ip by {
            assert(sorted_others[p].ip <= sorted_others[q].ip);
            if sorted_others[p].ip == sorted_others[q].ip {
                assert(sorted_others[p] != sorted_others[q]);
                assert(sorted_others.to_multiset().count(sorted_others[p]) > 0);
                assert(sorted_others.to_multiset().count(sorted_others[q]) > 0);
                assert(others@.contains(sorted_others[p]));
                assert(others@.contains(sorted_others[q]));
                let kp = choose|k: int| 0 <= k < others@.len() && others@[k] == sorted_others[p];
                let kq = choose|k: int| 0 <= k < others@.len() && others@[k] == sorted_others[q];
                assert(kp != kq);
                if kp < kq {
                    assert(others@[kp].ip != others@[kq].ip);
                } else {
                    assert(others@[kq].ip != others@[kp].ip);
                }
            }
        }
    }
    let local_entry = ArpEntry { ip: interface.ip, mac: interface.mac };
    let pos = insert_sorted(&mut merged, local_entry);
    let ghost gmerged = merged@;
    proof {
        sorted_others.insert_ensures(pos as int, local_entry);
        // Strictness survives the insertion: the old rows keep their order
        // and none carries the local address.
        assert forall|p: int, q: int| 0 <= p < q < gmerged.len() implies gmerged[p].ip
            < gmerged[q].ip by {
            assert(gmerged[p].ip <= gmerged[q].ip);
            if gmerged[p].ip == gmerged[q].ip {
                if p == pos {
                    assert(gmerged[q] == sorted_others[q - 1]);
                } else if q == pos {
                    assert(gmerged[p] == sorted_others[p]);
                } else {
                    let p2: int = if p < pos {
                        p
                    } else {
                        p - 1
                    };
                    let q2: int = if q < pos {
                        q
                    } else {
                        q - 1
                    };
                    assert(gmerged[p] == sorted_others[p2]);
                    assert(gmerged[q] == sorted_others[q2]);
                    assert(p2 < q2);
                    assert(sorted_others[p2].ip < sorted_others[q2].ip);
                }
            }
        }
        assert(gmerged[pos as int] == local_entry);
        assert forall|j: int|
            0 <= j < gmerged.len() && j != pos implies (#[trigger] gmerged[j]).ip
            != interface.ip by {
            if j < pos {
                assert(gmerged[j] == sorted_others[j]);
            } else {
                assert(gmerged[j] == sorted_others[j - 1]);
            }
        }
    }
    let mut hosts: Vec<HostInfo> = Vec::new();
    let m = merged.len();
    for i in 0..m
        invariant
            m == merged@.len(),
            hosts@.len() == i,
            spec_tcp_wf(tcp@),
            merged@ == gmerged,
            forall|j: int|
                0 <= j < i ==> spec_row_matches(
                    *interface,
                    icmp@,
                    tcp@,
                    dns@,
                    snmp@,
                    #[trigger] merged@[j],
                    hosts@[j],
                ),
            forall|j: int| 0 <= j < i ==> spec_host_wf(#[trigger] hosts@[j]),
    {
        if merged[i].ip == interface.ip {
            hosts.push(build_local_host(interface));
        } else {
            hosts.push(build_host(merged[i], icmp, tcp, dns, snmp));
        }
    }
    let arp_count = arp.len();
    let icmp_count = count_icmp_hits(arp, icmp);
    proof {
        lemma_filter_map_len_le(
            arp@,
            |e: ArpEntry|
                if spec_find_icmp(icmp@, e.ip) is Some {
                    Some(e)
                } else {
                    None
                },
        );
    }
    let total = hosts.len();
    let r = ScanResult {
        interface_name: interface.name.clone(),
        local_ip: crate::text::ipv4_to_string(interface.ip),
        local_mac: crate::mac::mac_to_string(&interface.mac),
        subnet: cidr_to_string(net),
        scan_method: String::from_str("Active ARP + ICMP"),
        arp_discovered: arp_count,
        icmp_discovered: icmp_count,
        total_hosts: total,
        scan_duration_ms,
        active_hosts: hosts,
    };
    proof {
        others@.to_multiset_ensures();
        sorted_others.to_multiset_ensures();
        assert(sorted_others.len() == others@.len());
        vstd::seq_lib::to_multiset_insert(sorted_others, pos as int, local_entry);
        lemma_assembled_wf(*interface, arp@, icmp@, tcp@, dns@, snmp@, gmerged, r, pos as int);
        assert(spec_merged_rows(*interface, arp@, icmp@, tcp@, dns@, snmp@, gmerged, r.active_hosts@));
    }
    r
}

/// Counts the ARP entries that also answered ICMP.
fn count_icmp_hits(arp: &Vec<ArpEntry>, icmp: &Vec<IcmpEntry>) -> (r: usize)
    ensures
        r == spec_icmp_hits(arp@, icmp@).len(),
{
    let ghost f = |e: ArpEntry|
        if spec_find_icmp(icmp@, e.ip) is Some {
            Some(e)
        } else {
            None
        };
    let mut count: usize = 0;
    let n = arp.len();
    for i in 0..n
        invariant
            n == arp@.len(),
            f == (|e: ArpEntry|
                if spec_find_icmp(icmp@, e.ip) is Some {
                    Some(e)
                } else {
                    None
                }),
            count == arp@.take(i as int).filter_map(f).len(),
            count <= i,
    {
        proof {
            arp@.lemma_filter_map_take_succ(f, i as int);
        }
        match find_icmp(icmp, arp[i].ip) {
            Some(_) => {
                count = count + 1;
            },
            None => {},
        }
    }
    proof {
        assert(arp@.take(n as int) =~= arp@);
    }
    count
}

/// The assembled result is well-formed.
proof fn lemma_assembled_wf(
    iface: InterfaceInfo,
    arp: Seq<ArpEntry>,
    icmp: Seq<IcmpEntry>,
    tcp: Seq<TcpEntry>,
    dns: Seq<DnsEntry>,
    snmp: Seq<SnmpEntry>,
    merged: Seq<ArpEntry>,
    r: ScanResult,
    li: int,
)
    requires
        forall|i: int, j: int| 0 <= i < j < merged.len() ==> merged[i].ip < merged[j].ip,
        merged.len() == r.active_hosts@.len(),
        forall|i: int|
            0 <= i < merged.len() ==> spec_row_matches(
                iface,
                icmp,
                tcp,
                dns,
                snmp,
                #[trigger] merged[i],
                r.active_hosts@[i],
            ),
        forall|i: int| 0 <= i < r.active_hosts@.len() ==> spec_host_wf(#[trigger] r.active_hosts@[i]),
        0 <= li < merged.len(),
        merged[li].ip == iface.ip,
        forall|j: int| 0 <= j < merged.len() && j != li ==> (#[trigger] merged[j]).ip != iface.ip,
        r.local_ip@ == spec_ipv4_text(iface.ip),
        r.total_hosts == r.active_hosts@.len(),
        r.arp_discovered >= r.icmp_discovered,
    ensures
        spec_scan_result_wf(r),
{
    let hosts = r.active_hosts@;
    let nums = Seq::<u32>::new(merged.len() as nat, |i: int| merged[i].ip);
    assert forall|i: int| 0 <= i < nums.len() implies hosts[i].ip@ == spec_ipv4_text(
        #[trigger] nums[i],
    ) by {
        assert(spec_row_matches(iface, icmp, tcp, dns, snmp, merged[i], hosts[i]));
    }
    assert(spec_ip_keys(hosts, nums));
    assert(crate::models::spec_hosts_sorted_by_ip(hosts));
    assert(hosts[li].discovery_method@ == "LOCAL"@);
    assert forall|j: int|
        0 <= j < hosts.len() && j != li implies (#[trigger] hosts[j].discovery_method@)
        != "LOCAL"@ by {
        assert(spec_row_matches(iface, icmp, tcp, dns, snmp, merged[j], hosts[j]));
        let e = merged[j];
        assert(e.ip != iface.ip);
        let ports = match spec_find_tcp(tcp, e.ip) {
            Some(t) => t.open_ports@,
            None => Seq::<u16>::empty(),
        };
        lemma_method_not_local(
            spec_find_icmp(icmp, e.ip) is Some,
            ports.len() > 0,
            spec_find_snmp(snmp, e.ip) is Some,
        );
    }
    assert(spec_local_at(r, li));
}

} // verus!
