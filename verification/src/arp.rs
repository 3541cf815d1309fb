//! The active ARP sweep: layer-2 frame crafting and parsing, reply
//! filtering, result bookkeeping and the adaptive-wait stop policy.
//!
//! The raw channel itself is driven from outside, round by round: inject
//! the request frames, feed every inbound frame to the sweep state, and
//! stop the round when the policy says so.

use vstd::prelude::*;
use vstd::seq_lib::*;

use crate::config::{ARP_IDLE_TIMEOUT_MS, ARP_MAX_WAIT_MS};
use crate::mac::MacAddr;
use crate::scan::ArpEntry;
use crate::subnet::{spec_in_subnet, spec_net_wf, Ipv4Net};
use crate::text::spec_ip_octet;

verus! {

/// The 42-byte Ethernet frame of one ARP request: broadcast destination,
/// the interface's MAC and IP as sender, opcode 1, and the probed address
/// as target protocol address.
pub open spec fn spec_arp_request(src_mac: MacAddr, src_ip: u32, target_ip: u32) -> Seq<u8> {
    seq![
        0xffu8,
        0xffu8,
        0xffu8,
        0xffu8,
        0xffu8,
        0xffu8,
        src_mac.o0,
        src_mac.o1,
        src_mac.o2,
        src_mac.o3,
        src_mac.o4,
        src_mac.o5,
        0x08u8,
        0x06u8,
        0x00u8,
        0x01u8,
        0x08u8,
        0x00u8,
        0x06u8,
        0x04u8,
        0x00u8,
        0x01u8,
        src_mac.o0,
        src_mac.o1,
        src_mac.o2,
        src_mac.o3,
        src_mac.o4,
        src_mac.o5,
        spec_ip_octet(src_ip, 0),
        spec_ip_octet(src_ip, 1),
        spec_ip_octet(src_ip, 2),
        spec_ip_octet(src_ip, 3),
        0x00u8,
        0x00u8,
        0x00u8,
        0x00u8,
        0x00u8,
        0x00u8,
        spec_ip_octet(target_ip, 0),
        spec_ip_octet(target_ip, 1),
        spec_ip_octet(target_ip, 2),
        spec_ip_octet(target_ip, 3),
    ]
}

/// Crafts the ARP request frame for one target.
pub fn build_arp_request(src_mac: &MacAddr, src_ip: u32, target_ip: u32) -> (frame: Vec<u8>)
    ensures
        frame@ == spec_arp_request(*src_mac, src_ip, target_ip),
        frame@.len() == 42,
{
    let frame: Vec<u8> = vec![
        0xff,
        0xff,
        0xff,
        0xff,
        0xff,
        0xff,
        src_mac.o0,
        src_mac.o1,
        src_mac.o2,
        src_mac.o3,
        src_mac.o4,
        src_mac.o5,
        0x08,
        0x06,
        0x00,
        0x01,
        0x08,
        0x00,
        0x06,
        0x04,
        0x00,
        0x01,
        src_mac.o0,
        src_mac.o1,
        src_mac.o2,
        src_mac.o3,
        src_mac.o4,
        src_mac.o5,
        crate::text::ip_octet(src_ip, 0),
        crate::text::ip_octet(src_ip, 1),
        crate::text::ip_octet(src_ip, 2),
        crate::text::ip_octet(src_ip, 3),
        0x00,
        0x00,
        0x00,
        0x00,
        0x00,
        0x00,
        crate::text::ip_octet(target_ip, 0),
        crate::text::ip_octet(target_ip, 1),
        crate::text::ip_octet(target_ip, 2),
        crate::text::ip_octet(target_ip, 3),
    ];
    proof {
        assert(frame@ =~= spec_arp_request(*src_mac, src_ip, target_ip));
    }
    frame
}

/// A 32-bit value from four big-endian bytes.
pub open spec fn spec_be32(b0: u8, b1: u8, b2: u8, b3: u8) -> u32 {
    (b0 * 0x1000000 + b1 * 0x10000 + b2 * 0x100 + b3) as u32
}

/// Whether the frame is an ARP reply over Ethernet/IPv4: ARP ethertype,
/// hardware type Ethernet, protocol type IPv4, the right lengths, and
/// opcode 2.
pub open spec fn spec_is_arp_reply(f: Seq<u8>) -> bool {
    &&& f.len() >= 42
    &&& f[12] == 0x08u8 && f[13] == 0x06u8
    &&& f[14] == 0x00u8 && f[15] == 0x01u8
    &&& f[16] == 0x08u8 && f[17] == 0x00u8
    &&& f[18] == 0x06u8 && f[19] == 0x04u8
    &&& f[20] == 0x00u8 && f[21] == 0x02u8
}

/// The sender of an ARP reply: its protocol (IPv4) and hardware (MAC)
/// addresses, read from the frame.
pub open spec fn spec_arp_reply_sender(f: Seq<u8>) -> ArpEntry {
    ArpEntry {
        ip: spec_be32(f[28], f[29], f[30], f[31]),
        mac: MacAddr { o0: f[22], o1: f[23], o2: f[24], o3: f[25], o4: f[26], o5: f[27] },
    }
}

/// Parses an inbound frame as an ARP reply; anything else yields nothing.
pub fn parse_arp_reply(frame: &[u8]) -> (r: Option<ArpEntry>)
    ensures
        spec_is_arp_reply(frame@) ==> r == Some(spec_arp_reply_sender(frame@)),
        !spec_is_arp_reply(frame@) ==> r is None,
{
    if frame.len() < 42 {
        return None;
    }
    if !(frame[12] == 0x08 && frame[13] == 0x06 && frame[14] == 0x00 && frame[15] == 0x01
        && frame[16] == 0x08 && frame[17] == 0x00 && frame[18] == 0x06 && frame[19] == 0x04
        && frame[20] == 0x00 && frame[21] == 0x02) {
        return None;
    }
    let ip: u32 = (frame[28] as u32) * 0x1000000 + (frame[29] as u32) * 0x10000 + (frame[30]
        as u32) * 0x100 + (frame[31] as u32);
    let mac = MacAddr {
        o0: frame[22],
        o1: frame[23],
        o2: frame[24],
        o3: frame[25],
        o4: frame[26],
        o5: frame[27],
    };
    Some(ArpEntry { ip, mac })
}

/// Whether a parsed reply is retained: its sender lies in the scanned
/// subnet, is not the local interface itself, and has a non-zero MAC.
pub open spec fn spec_accept_reply(e: ArpEntry, subnet: Ipv4Net, local_ip: u32) -> bool {
    &&& spec_in_subnet(subnet, e.ip)
    &&& e.ip != local_ip
    &&& !crate::mac::spec_is_zero_mac(e.mac)
}

/// Whether a parsed reply is retained.
pub fn accept_arp_reply(e: &ArpEntry, subnet: &Ipv4Net, local_ip: u32) -> (r: bool)
    requires
        spec_net_wf(*subnet),
    ensures
        r == spec_accept_reply(*e, *subnet, local_ip),
{
    crate::subnet::in_subnet(subnet, e.ip) && e.ip != local_ip && !crate::mac::is_zero_mac(&e.mac)
}

/// The addresses one sweep requests: every scannable host except the
/// local interface itself. The network and broadcast addresses were never
/// in the list.
pub fn arp_targets(ips: &Vec<u32>, local_ip: u32) -> (r: Vec<u32>)
    ensures
        r@ == ips@.filter_map(
            |t: u32|
                if t != local_ip {
                    Some(t)
                } else {
                    None
                },
        ),
{
    let ghost f = |t: u32|
        if t != local_ip {
            Some(t)
        } else {
            None
        };
    let mut r: Vec<u32> = Vec::new();
    let n = ips.len();
    for i in 0..n
        invariant
            n == ips@.len(),
            f == (|t: u32|
                if t != local_ip {
                    Some(t)
                } else {
                    None
                }),
            r@ == ips@.take(i as int).filter_map(f),
    {
        proof {
            ips@.lemma_filter_map_take_succ(f, i as int);
        }
        if ips[i] != local_ip {
            r.push(ips[i]);
        }
    }
    proof {
        assert(ips@.take(n as int) =~= ips@);
    }
    r
}

/// Whether some result already has this address.
pub open spec fn spec_has_ip(s: Seq<ArpEntry>, ip: u32) -> bool {
    exists|i: int| 0 <= i < s.len() && (#[trigger] s[i]).ip == ip
}

/// Finds the index of the entry with this address.
fn find_ip_index(s: &Vec<ArpEntry>, ip: u32) -> (r: Option<usize>)
    ensures
        match r {
            Some(k) => 0 <= k < s@.len() && (s@[k as int]).ip == ip,
            None => !spec_has_ip(s@, ip),
        },
{
    let n = s.len();
    for i in 0..n
        invariant
            n == s@.len(),
            forall|j: int| 0 <= j < i ==> (#[trigger] s@[j]).ip != ip,
    {
        if s[i].ip == ip {
            return Some(i);
        }
    }
    None
}

/// The bookkeeping of one ARP sweep: the targets to probe and the replies
/// retained so far, one per address with the last writer winning.
#[derive(Debug)]
pub struct ArpSweep {
    pub targets: Vec<u32>,
    pub found: Vec<ArpEntry>,
}

/// A well-formed sweep holds one entry per address.
pub open spec fn spec_sweep_wf(s: ArpSweep) -> bool {
    crate::scan::spec_unique_ips(s.found@)
}

impl ArpSweep {
    /// A fresh sweep over the given targets, with nothing found yet.
    pub fn new(targets: Vec<u32>) -> (s: Self)
        ensures
            s.targets == targets,
            s.found@.len() == 0,
            spec_sweep_wf(s),
    {
        ArpSweep { targets, found: Vec::new() }
    }

    /// Feeds one inbound frame to the sweep. A frame that is not an ARP
    /// reply, or whose sender is filtered out, changes nothing. A
    /// retained sender is recorded: a new address is appended (and the
    /// call returns true), a known address keeps its place and takes the
    /// new MAC.
    pub fn record_frame(&mut self, frame: &[u8], subnet: &Ipv4Net, local_ip: u32) -> (is_new:
        bool)
        requires
            spec_net_wf(*subnet),
            spec_sweep_wf(*old(self)),
        ensures
            spec_sweep_wf(*final(self)),
            final(self).targets == old(self).targets,
            ({
                let retained = spec_is_arp_reply(frame@) && spec_accept_reply(
                    spec_arp_reply_sender(frame@),
                    *subnet,
                    local_ip,
                );
                if retained {
                    let e = spec_arp_reply_sender(frame@);
                    if spec_has_ip(old(self).found@, e.ip) {
                        &&& !is_new
                        &&& exists|k: int|
                            0 <= k < old(self).found@.len() && (#[trigger] old(
                                self,
                            ).found@[k]).ip == e.ip && final(self).found@ == old(
                                self,
                            ).found@.update(k, e)
                    } else {
                        &&& is_new
                        &&& final(self).found@ == old(self).found@.push(e)
                    }
                } else {
                    &&& !is_new
                    &&& final(self).found@ == old(self).found@
                }
            }),
    {
        let parsed = parse_arp_reply(frame);
        match parsed {
            Some(e) => {
                if accept_arp_reply(&e, subnet, local_ip) {
                    match find_ip_index(&self.found, e.ip) {
                        Some(i) => {
                            let ghost found0 = self.found@;
                            self.found.set(i, e);
                            proof {
                                assert forall|p: int, q: int|
                                    0 <= p < q < self.found@.len() implies (
                                #[trigger] self.found@[p]).ip != (#[trigger] self.found@[q]).ip by {
                                    if p != i {
                                        assert(self.found@[p] == found0[p]);
                                    }
                                    if q != i {
                                        assert(self.found@[q] == found0[q]);
                                    }
                                }
                                assert((old(self).found@[i as int]).ip == e.ip);
                                assert(self.found@ == old(self).found@.update(i as int, e));
                            }
                            false
                        },
                        None => {
                            self.found.push(e);
                            true
                        },
                    }
                } else {
                    false
                }
            },
            None => false,
        }
    }

    /// The targets not yet resolved: what a second round re-requests.
    pub fn pending_targets(&self) -> (r: Vec<u32>)
        ensures
            r@ == self.targets@.filter_map(
                |t: u32|
                    if !spec_has_ip(self.found@, t) {
                        Some(t)
                    } else {
                        None
                    },
            ),
    {
        let ghost f = |t: u32|
            if !spec_has_ip(self.found@, t) {
                Some(t)
            } else {
                None
            };
        let mut r: Vec<u32> = Vec::new();
        let n = self.targets.len();
        for i in 0..n
            invariant
                n == self.targets@.len(),
                f == (|t: u32|
                    if !spec_has_ip(self.found@, t) {
                        Some(t)
                    } else {
                        None
                    }),
                r@ == self.targets@.take(i as int).filter_map(f),
        {
            proof {
                self.targets@.lemma_filter_map_take_succ(f, i as int);
            }
            let t = self.targets[i];
            if !self.has_found(t) {
                r.push(t);
            }
        }
        proof {
            assert(self.targets@.take(n as int) =~= self.targets@);
        }
        r
    }

    /// Whether an address was already resolved.
    pub fn has_found(&self, ip: u32) -> (r: bool)
        ensures
            r == spec_has_ip(self.found@, ip),
    {
        let n = self.found.len();
        for i in 0..n
            invariant
                n == self.found@.len(),
                forall|j: int| 0 <= j < i ==> (#[trigger] self.found@[j]).ip != ip,
        {
            if self.found[i].ip == ip {
                return true;
            }
        }
        false
    }

    /// Hands the retained replies out.
    pub fn into_results(self) -> (r: Vec<ArpEntry>)
        ensures
            r@ == self.found@,
    {
        self.found
    }
}

/// When one adaptive-wait round stops: the total wait reached its cap, or
/// nothing new appeared for the idle timeout while at least one host was
/// already found.
pub open spec fn spec_round_should_stop(total_wait_ms: u64, idle_ms: u64, found_any: bool) -> bool {
    ||| total_wait_ms >= ARP_MAX_WAIT_MS
    ||| (idle_ms >= ARP_IDLE_TIMEOUT_MS && found_any)
}

/// Decides whether the current ARP round stops now.
pub fn arp_round_should_stop(total_wait_ms: u64, idle_ms: u64, found_any: bool) -> (r: bool)
    ensures
        r == spec_round_should_stop(total_wait_ms, idle_ms, found_any),
{
    total_wait_ms >= ARP_MAX_WAIT_MS || (idle_ms >= ARP_IDLE_TIMEOUT_MS && found_any)
}

} // verus!
