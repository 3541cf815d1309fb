//! Network interface detection and selection.
//!
//! The operating-system NIC enumeration is handed in as plain values
//! (`NicInfo`); selection rejects loopback, MAC-less and virtual adapters,
//! then scores the surviving IPv4 addresses and picks the best.

use vstd::prelude::*;
use vstd::seq_lib::*;

use crate::errors::ScanError;
use crate::mac::MacAddr;
use crate::text::spec_ip_octet;

verus! {

/// Network interface information with MAC address: the chosen NIC.
#[derive(Debug)]
pub struct InterfaceInfo {
    pub name: String,
    pub ip: u32,
    pub mac: MacAddr,
    pub prefix_len: u8,
}

impl Clone for InterfaceInfo {
    /// Field-for-field copy.
    fn clone(&self) -> (r: Self)
        ensures
            r == *self,
    {
        InterfaceInfo {
            name: self.name.clone(),
            ip: self.ip,
            mac: self.mac,
            prefix_len: self.prefix_len,
        }
    }
}

/// A well-formed interface: prefix length in range.
pub open spec fn spec_iface_wf(i: InterfaceInfo) -> bool {
    1 <= i.prefix_len <= 32
}

/// One IPv4 address of a NIC, with its prefix length.
#[derive(Clone, Copy, PartialEq, Eq, Structural, Debug)]
pub struct NicAddr {
    pub ip: u32,
    pub prefix_len: u8,
}

/// Plain facts about one OS-visible NIC.
#[derive(Debug)]
pub struct NicInfo {
    pub name: String,
    pub is_loopback: bool,
    pub mac: Option<MacAddr>,
    pub ips: Vec<NicAddr>,
}

/// A character's code point with an upper-case ASCII letter folded to lower case.
pub open spec fn spec_lower_val(c: char) -> u32 {
    if 65 <= c as u32 <= 90 {
        (c as u32 + 32) as u32
    } else {
        c as u32
    }
}

/// A character's code point, upper-case ASCII folded to lower case.
pub fn lower_val(c: char) -> (v: u32)
    ensures
        v == spec_lower_val(c),
{
    let x = c as u32;
    if 65 <= x && x <= 90 {
        x + 32
    } else {
        x
    }
}

/// Whether `needle` matches `hay` at position `i`, ASCII-case-insensitively.
pub open spec fn spec_matches_ci_at(hay: Seq<char>, needle: Seq<char>, i: int) -> bool {
    forall|j: int|
        0 <= j < needle.len() ==> spec_lower_val(#[trigger] hay[i + j]) == spec_lower_val(
            needle[j],
        )
}

/// Whether `hay` contains `needle` as a substring, ASCII-case-insensitively.
pub open spec fn spec_contains_ci(hay: Seq<char>, needle: Seq<char>) -> bool {
    exists|i: int|
        0 <= i && i + needle.len() <= hay.len() && #[trigger] spec_matches_ci_at(hay, needle, i)
}

/// Whether the needle matches the hay at position `i`.
fn matches_at(hay: &str, hay_len: usize, needle: &str, needle_len: usize, i: usize) -> (r: bool)
    requires
        hay_len == hay@.len(),
        needle_len == needle@.len(),
        i + needle_len <= hay_len,
    ensures
        r == spec_matches_ci_at(hay@, needle@, i as int),
{
    let mut j: usize = 0;
    while j < needle_len
        invariant
            hay_len == hay@.len(),
            needle_len == needle@.len(),
            i + needle_len <= hay_len,
            0 <= j <= needle_len,
            forall|k: int|
                0 <= k < j ==> spec_lower_val(#[trigger] hay@[i + k]) == spec_lower_val(
                    needle@[k],
                ),
        decreases needle_len - j,
    {
        if lower_val(hay.get_char(i + j)) != lower_val(needle.get_char(j)) {
            assert(!spec_matches_ci_at(hay@, needle@, i as int));
            return false;
        }
        j = j + 1;
    }
    true
}

/// Case-insensitive (ASCII) substring search.
pub fn str_contains_ci(hay: &str, needle: &str) -> (r: bool)
    ensures
        r == spec_contains_ci(hay@, needle@),
{
    let hay_len = hay.unicode_len();
    let needle_len = needle.unicode_len();
    if needle_len > hay_len {
        assert(!spec_contains_ci(hay@, needle@));
        return false;
    }
    let last_pos = hay_len - needle_len;
    let mut i: usize = 0;
    while i <= last_pos
        invariant
            hay_len == hay@.len(),
            needle_len == needle@.len(),
            needle_len <= hay_len,
            last_pos == hay_len - needle_len,
            0 <= i,
            i <= last_pos + 1,
            forall|i2: int| 0 <= i2 < i ==> !spec_matches_ci_at(hay@, needle@, i2),
        decreases last_pos + 1 - i,
    {
        if matches_at(hay, hay_len, needle, needle_len, i) {
            assert(spec_contains_ci(hay@, needle@));
            return true;
        }
        i = i + 1;
    }
    false
}

/// Virtual-adapter name patterns: such NICs are never selected.
pub open spec fn spec_name_rejected(name: Seq<char>) -> bool {
    ||| spec_contains_ci(name, "hyper-v"@)
    ||| spec_contains_ci(name, "vmware"@)
    ||| spec_contains_ci(name, "virtualbox"@)
    ||| spec_contains_ci(name, "docker"@)
    ||| spec_contains_ci(name, "vethernet"@)
    ||| spec_contains_ci(name, "wsl"@)
}

/// Whether a NIC name matches a known virtual-adapter pattern.
pub fn is_virtual_adapter_name(name: &str) -> (r: bool)
    ensures
        r == spec_name_rejected(name@),
{
    str_contains_ci(name, "hyper-v") || str_contains_ci(name, "vmware") || str_contains_ci(
        name,
        "virtualbox",
    ) || str_contains_ci(name, "docker") || str_contains_ci(name, "vethernet") || str_contains_ci(
        name,
        "wsl",
    )
}

/// Priority score of an IPv4 address for interface selection: typical
/// home/office LAN ranges first, possibly-virtual ranges last.
pub open spec fn spec_interface_score(ip: u32) -> u32 {
    let a = spec_ip_octet(ip, 0);
    let b = spec_ip_octet(ip, 1);
    if a == 192 && b == 168 {
        100u32
    } else if a == 10 {
        90u32
    } else if a == 172 && 16 <= b <= 31 {
        50u32
    } else {
        70u32
    }
}

/// Scores an IP address for interface selection priority.
pub fn interface_score(ip: u32) -> (score: u32)
    ensures
        score == spec_interface_score(ip),
{
    let a = crate::text::ip_octet(ip, 0);
    let b = crate::text::ip_octet(ip, 1);
    if a == 192 && b == 168 {
        100
    } else if a == 10 {
        90
    } else if a == 172 && 16 <= b && b <= 31 {
        50
    } else {
        70
    }
}

/// Whether the NIC itself survives filtering: not loopback, has a non-zero
/// MAC, and its name matches no virtual-adapter pattern.
pub open spec fn spec_nic_ok(n: NicInfo) -> bool {
    &&& !n.is_loopback
    &&& n.mac is Some
    &&& !crate::mac::spec_is_zero_mac(n.mac->Some_0)
    &&& !spec_name_rejected(n.name@)
}

/// Whether one address of a surviving NIC becomes a candidate: not
/// link-local, not a large 172.16/12 virtual-switch subnet, and with a
/// usable prefix length.
pub open spec fn spec_addr_ok(a: NicAddr) -> bool {
    &&& !(spec_ip_octet(a.ip, 0) == 169 && spec_ip_octet(a.ip, 1) == 254)
    &&& !(spec_ip_octet(a.ip, 0) == 172 && 16 <= spec_ip_octet(a.ip, 1) <= 31 && a.prefix_len
        <= 20)
    &&& 1 <= a.prefix_len <= 32
}

/// The candidate made of a NIC and one of its addresses.
pub open spec fn spec_candidate_of(n: NicInfo, a: NicAddr) -> InterfaceInfo {
    InterfaceInfo { name: n.name, ip: a.ip, mac: n.mac->Some_0, prefix_len: a.prefix_len }
}

/// All candidates one NIC contributes, in address order.
pub open spec fn spec_nic_candidates(n: NicInfo) -> Seq<InterfaceInfo> {
    if spec_nic_ok(n) {
        n.ips@.filter_map(
            |a: NicAddr|
                if spec_addr_ok(a) {
                    Some(spec_candidate_of(n, a))
                } else {
                    None
                },
        )
    } else {
        Seq::empty()
    }
}

/// All candidates of an enumeration, NIC by NIC, address by address.
pub open spec fn spec_candidates(nics: Seq<NicInfo>) -> Seq<InterfaceInfo>
    decreases nics.len(),
{
    if nics.len() == 0 {
        Seq::empty()
    } else {
        spec_candidates(nics.drop_last()) + spec_nic_candidates(nics.last())
    }
}

/// Candidates of a prefix grow NIC by NIC.
proof fn lemma_candidates_take_succ(nics: Seq<NicInfo>, i: int)
    requires
        0 <= i < nics.len(),
    ensures
        spec_candidates(nics.take(i + 1)) == spec_candidates(nics.take(i)) + spec_nic_candidates(
            nics[i],
        ),
{
    assert(nics.take(i + 1).drop_last() =~= nics.take(i));
    assert(nics.take(i + 1).last() == nics[i]);
}

/// Whether position `i` holds the first candidate of maximal score.
pub open spec fn spec_first_best(cands: Seq<InterfaceInfo>, i: int) -> bool {
    &&& 0 <= i < cands.len()
    &&& forall|j: int|
        0 <= j < cands.len() ==> spec_interface_score(#[trigger] cands[j].ip)
            <= spec_interface_score(cands[i].ip)
    &&& forall|j: int|
        0 <= j < i ==> spec_interface_score(#[trigger] cands[j].ip) < spec_interface_score(
            cands[i].ip,
        )
}

/// Collects the candidate list of an enumeration.
fn collect_candidates(nics: &Vec<NicInfo>) -> (cands: Vec<InterfaceInfo>)
    ensures
        cands@ == spec_candidates(nics@),
{
    let mut cands: Vec<InterfaceInfo> = Vec::new();
    let n = nics.len();
    for i in 0..n
        invariant
            n == nics@.len(),
            cands@ == spec_candidates(nics@.take(i as int)),
    {
        let nic = &nics[i];
        let nic_ok = !nic.is_loopback && (match &nic.mac {
            Some(m) => !crate::mac::is_zero_mac(m),
            None => false,
        }) && !is_virtual_adapter_name(nic.name.as_str());
        proof {
            lemma_candidates_take_succ(nics@, i as int);
        }
        if nic_ok {
            let ghost f = |a: NicAddr|
                if spec_addr_ok(a) {
                    Some(spec_candidate_of(nics@[i as int], a))
                } else {
                    None
                };
            let m = nic.ips.len();
            for k in 0..m
                invariant
                    n == nics@.len(),
                    i < n,
                    m == nic.ips@.len(),
                    nic == &nics@[i as int],
                    spec_nic_ok(nics@[i as int]),
                    f == (|a: NicAddr|
                        if spec_addr_ok(a) {
                            Some(spec_candidate_of(nics@[i as int], a))
                        } else {
                            None
                        }),
                    cands@ == spec_candidates(nics@.take(i as int)) + nic.ips@.take(
                        k as int,
                    ).filter_map(f),
            {
                let a = nic.ips[k];
                let oct0 = crate::text::ip_octet(a.ip, 0);
                let oct1 = crate::text::ip_octet(a.ip, 1);
                let link_local = oct0 == 169 && oct1 == 254;
                let virtual_range = oct0 == 172 && 16 <= oct1 && oct1 <= 31 && a.prefix_len <= 20;
                let prefix_ok = 1 <= a.prefix_len && a.prefix_len <= 32;
                proof {
                    nic.ips@.lemma_filter_map_take_succ(f, k as int);
                }
                if !link_local && !virtual_range && prefix_ok {
                    let mac = match &nic.mac {
                        Some(m) => *m,
                        None => MacAddr { o0: 0, o1: 0, o2: 0, o3: 0, o4: 0, o5: 0 },
                    };
                    cands.push(
                        InterfaceInfo {
                            name: nic.name.clone(),
                            ip: a.ip,
                            mac,
                            prefix_len: a.prefix_len,
                        },
                    );
                    assert(f(nic.ips@[k as int]) == Some(
                        spec_candidate_of(nics@[i as int], nic.ips@[k as int]),
                    ));
                }
            }
            assert(nic.ips@.take(m as int) =~= nic.ips@);
            assert(cands@ == spec_candidates(nics@.take(i as int)) + spec_nic_candidates(
                nics@[i as int],
            ));
        } else {
            assert(spec_nic_candidates(nics@[i as int]) =~= Seq::<InterfaceInfo>::empty());
            assert(cands@ =~= spec_candidates(nics@.take(i as int)) + spec_nic_candidates(
                nics@[i as int],
            ));
        }
    }
    assert(nics@.take(n as int) =~= nics@);
    cands
}

/// Finds the first valid IPv4 network interface with a MAC address,
/// preferring physical adapters on typical LAN ranges over virtual ones.
///
/// Succeeds exactly when filtering leaves at least one candidate; the
/// returned interface is the first candidate of maximal score.
pub fn find_valid_interface(nics: &Vec<NicInfo>) -> (r: Result<InterfaceInfo, ScanError>)
    ensures
        match r {
            Ok(c) => {
                &&& exists|i: int| spec_first_best(spec_candidates(nics@), i) && c == spec_candidates(nics@)[i]
                &&& spec_iface_wf(c)
            },
            Err(e) => {
                &&& e == ScanError::NoInterface
                &&& spec_candidates(nics@).len() == 0
            },
        },
{
    let cands = collect_candidates(nics);
    proof {
        lemma_candidates_wf(nics@);
    }
    if cands.len() == 0 {
        return Err(ScanError::NoInterface);
    }
    let mut best: usize = 0;
    let mut best_score = interface_score(cands[0].ip);
    let len = cands.len();
    for i in 1..len
        invariant
            len == cands@.len(),
            0 <= best < len,
            best < i <= len,
            best_score == spec_interface_score(cands@[best as int].ip),
            forall|j: int|
                0 <= j < i ==> spec_interface_score(#[trigger] cands@[j].ip) <= best_score,
            forall|j: int|
                0 <= j < best ==> spec_interface_score(#[trigger] cands@[j].ip) < best_score,
    {
        let s = interface_score(cands[i].ip);
        if s > best_score {
            best = i;
            best_score = s;
        }
    }
    let ghost gi = best as int;
    assert(spec_first_best(cands@, gi));
    let chosen = cands[best].clone();
    assert(chosen == cands@[gi]);
    Ok(chosen)
}

/// Every candidate is well-formed: its address survived the prefix filter.
proof fn lemma_candidates_wf(nics: Seq<NicInfo>)
    ensures
        forall|i: int|
            0 <= i < spec_candidates(nics).len() ==> spec_iface_wf(
                #[trigger] spec_candidates(nics)[i],
            ),
    decreases nics.len(),
{
    if nics.len() > 0 {
        lemma_candidates_wf(nics.drop_last());
        let last = nics.last();
        if spec_nic_ok(last) {
            let f = |a: NicAddr|
                if spec_addr_ok(a) {
                    Some(spec_candidate_of(last, a))
                } else {
                    None
                };
            assert forall|c: InterfaceInfo| spec_nic_candidates(last).contains(c) implies spec_iface_wf(c) by {
                last.ips@.lemma_filter_map_contains(f, c);
            }
            assert forall|i: int|
                0 <= i < spec_candidates(nics).len() implies spec_iface_wf(
                #[trigger] spec_candidates(nics)[i],
            ) by {
                let prev = spec_candidates(nics.drop_last());
                if i >= prev.len() {
                    assert(spec_nic_candidates(last).contains(spec_candidates(nics)[i]));
                }
            }
        }
    }
}

} // verus!
