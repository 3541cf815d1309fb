//! IPv4 subnets: network and broadcast addresses, membership, and the
//! scannable host range derived from an interface.

use vstd::arithmetic::power2::{lemma2_to64, lemma_pow2_adds, pow2};
use vstd::bits::{lemma_u64_pow2_no_overflow, lemma_u64_shl_is_mul};
use vstd::prelude::*;

use crate::iface::InterfaceInfo;

verus! {

/// An IPv4 network: its network address and prefix length.
#[derive(Clone, Copy, PartialEq, Eq, Structural, Debug)]
pub struct Ipv4Net {
    pub network: u32,
    pub prefix: u8,
}

/// Number of addresses a prefix spans: two to the power of the host bits.
pub open spec fn spec_block_size(prefix: u8) -> int {
    pow2((32 - prefix) as nat) as int
}

/// A well-formed network: prefix in range, network address aligned to the block.
pub open spec fn spec_net_wf(n: Ipv4Net) -> bool {
    &&& 1 <= n.prefix <= 32
    &&& (n.network as int) % spec_block_size(n.prefix) == 0
}

/// The network that an address with the given prefix belongs to.
pub open spec fn spec_net_of(ip: u32, prefix: u8) -> Ipv4Net {
    Ipv4Net { network: (ip - ((ip as int) % spec_block_size(prefix))) as u32, prefix }
}

/// The directed-broadcast address: the all-ones host address of the subnet.
pub open spec fn spec_broadcast(n: Ipv4Net) -> int {
    n.network + spec_block_size(n.prefix) - 1
}

/// An address lies in the subnet iff it is between network and broadcast.
pub open spec fn spec_in_subnet(n: Ipv4Net, ip: u32) -> bool {
    n.network <= ip <= spec_broadcast(n)
}

/// How many scannable hosts the subnet has: every address strictly between
/// network and broadcast.
pub open spec fn spec_host_count(prefix: u8) -> int {
    if spec_block_size(prefix) >= 2 {
        spec_block_size(prefix) - 2
    } else {
        0
    }
}

/// Number of addresses spanned by a prefix.
pub fn block_size(prefix: u8) -> (b: u64)
    requires
        1 <= prefix <= 32,
    ensures
        b == spec_block_size(prefix),
        1 <= b <= 0x8000_0000,
{
    let shift: u64 = 32 - (prefix as u64);
    proof {
        lemma_u64_pow2_no_overflow(shift as nat);
        lemma_u64_shl_is_mul(1u64, shift);
        lemma2_to64();
    }
    1u64 << shift
}

/// The broadcast address stays within 32 bits.
pub proof fn lemma_broadcast_fits(n: Ipv4Net)
    requires
        spec_net_wf(n),
    ensures
        spec_broadcast(n) < 0x1_0000_0000,
{
    let block = spec_block_size(n.prefix);
    lemma_u64_pow2_no_overflow((32 - n.prefix) as nat);
    let k = (n.network as int) / block;
    vstd::arithmetic::div_mod::lemma_fundamental_div_mod(n.network as int, block);
    vstd::arithmetic::div_mod::lemma_div_pos_is_pos(n.network as int, block);
    lemma_pow2_adds((32 - n.prefix) as nat, n.prefix as nat);
    lemma2_to64();
    assert(block * pow2(n.prefix as nat) == 0x1_0000_0000);
    // If k + 1 were more than 2^prefix, the network address itself would
    // already exceed 32 bits.
    assert(n.network + block - 1 < block * pow2(n.prefix as nat)) by (nonlinear_arith)
        requires
            n.network as int == block * k,
            (n.network as int) < block * pow2(n.prefix as nat),
            block > 0,
            k >= 0,
    ;
}

/// Derives the subnet of an address under a prefix length.
pub fn subnet_of(ip: u32, prefix: u8) -> (n: Ipv4Net)
    requires
        1 <= prefix <= 32,
    ensures
        n == spec_net_of(ip, prefix),
        spec_net_wf(n),
        spec_in_subnet(n, ip),
{
    let block = block_size(prefix);
    let rem: u64 = (ip as u64) % block;
    proof {
        vstd::arithmetic::div_mod::lemma_mod_decreases(ip as nat, block as nat);
    }
    let network: u32 = ((ip as u64) - rem) as u32;
    proof {
        let b = block as int;
        vstd::arithmetic::div_mod::lemma_fundamental_div_mod(ip as int, b);
        let q = (ip as int) / b;
        assert(network as int == b * q);
        vstd::arithmetic::div_mod::lemma_mod_multiples_basic(q, b);
        assert(b * q == q * b) by (nonlinear_arith);
        assert(ip - network < b);
    }
    Ipv4Net { network, prefix }
}

/// The broadcast address of a subnet.
pub fn broadcast_addr(n: &Ipv4Net) -> (r: u32)
    requires
        spec_net_wf(*n),
    ensures
        r == spec_broadcast(*n),
{
    proof {
        lemma_broadcast_fits(*n);
    }
    let block = block_size(n.prefix);
    ((n.network as u64) + block - 1) as u32
}

/// Whether an address lies inside the subnet.
pub fn in_subnet(n: &Ipv4Net, ip: u32) -> (r: bool)
    requires
        spec_net_wf(*n),
    ensures
        r == spec_in_subnet(*n, ip),
{
    let bc = broadcast_addr(n);
    n.network <= ip && ip <= bc
}

/// Checks if an IP address is the network or the directed-broadcast address
/// of the subnet.
pub fn is_special_address(ip: u32, subnet: &Ipv4Net) -> (r: bool)
    requires
        spec_net_wf(*subnet),
    ensures
        r == (ip == subnet.network || ip == spec_broadcast(*subnet)),
{
    let bc = broadcast_addr(subnet);
    ip == subnet.network || ip == bc
}

/// Checks if a target IP is in the same subnet as the local interface,
/// i.e. reachable at layer 2 so that ARP will work.
pub fn is_local_subnet(target_ip: u32, local_interface: &InterfaceInfo) -> (r: bool)
    requires
        crate::iface::spec_iface_wf(*local_interface),
    ensures
        r == spec_in_subnet(spec_net_of(local_interface.ip, local_interface.prefix_len), target_ip),
{
    let net = subnet_of(local_interface.ip, local_interface.prefix_len);
    in_subnet(&net, target_ip)
}

/// Calculates the subnet of an interface and the ascending list of its
/// scannable host addresses: every address in the subnet except the network
/// and the directed-broadcast address. Edge prefixes of 31 or 32 host bits
/// zero hosts, and the scan becomes a no-op.
pub fn calculate_subnet_ips(interface: &InterfaceInfo) -> (r: (Ipv4Net, Vec<u32>))
    requires
        crate::iface::spec_iface_wf(*interface),
    ensures
        r.0 == spec_net_of(interface.ip, interface.prefix_len),
        spec_net_wf(r.0),
        r.1@.len() == spec_host_count(interface.prefix_len),
        forall|k: int|
            0 <= k < r.1@.len() ==> r.1@[k] == r.0.network + 1 + k,
        forall|k: int|
            0 <= k < r.1@.len() ==> r.0.network < #[trigger] r.1@[k] < spec_broadcast(r.0),
{
    let net = subnet_of(interface.ip, interface.prefix_len);
    proof {
        lemma_broadcast_fits(net);
    }
    let block = block_size(net.prefix);
    let count: u64 = if block >= 2 {
        block - 2
    } else {
        0
    };
    let mut ips: Vec<u32> = Vec::new();
    let mut k: u64 = 0;
    while k < count
        invariant
            count == spec_host_count(net.prefix),
            spec_net_wf(net),
            net.network + count + 1 == spec_broadcast(net) || count == 0,
            spec_broadcast(net) < 0x1_0000_0000,
            0 <= k <= count,
            ips@.len() == k,
            forall|j: int| 0 <= j < k ==> ips@[j] == net.network + 1 + j,
        decreases count - k,
    {
        ips.push(((net.network as u64) + 1 + k) as u32);
        k = k + 1;
    }
    (net, ips)
}

/// Prefixes of 31 or 32 bits span no scannable host: the sweep over them
/// is a no-op, and a scan reports the local machine alone.
pub proof fn lemma_edge_prefix_no_hosts(prefix: u8)
    requires
        prefix == 31 || prefix == 32,
    ensures
        spec_host_count(prefix) == 0,
{
    lemma2_to64();
}

} // verus!
