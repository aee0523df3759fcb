//! Network addresses, and the networks that requests may come from.

use ipnet::{IpNet, Ipv4Net, Ipv6Net};
use vstd::arithmetic::power2::pow2;
use vstd::prelude::*;

verus! {

/// The address of a peer.
#[derive(Clone, Copy, Debug)]
pub enum Address {
    V4(u32),
    V6(u128),
}

/// An address and the length of a prefix: the addresses that share that many first bits with it.
#[derive(Clone, Copy, Debug)]
pub enum Network {
    V4(u32, u8),
    V6(u128, u8),
}

impl Network {
    /// The prefix is no longer than an address.
    pub open spec fn wf(self) -> bool {
        match self {
            Network::V4(_, prefix) => prefix <= 32,
            Network::V6(_, prefix) => prefix <= 128,
        }
    }
}

/// Two addresses of `bits` bits agree in their first `prefix` bits.
pub open spec fn same_prefix(a: nat, b: nat, prefix: nat, bits: nat) -> bool {
    a / pow2((bits - prefix) as nat) == b / pow2((bits - prefix) as nat)
}

/// An address lies in a network of its own family where the first bits agree.
pub open spec fn in_network(network: Network, ip: Address) -> bool {
    match (network, ip) {
        (Network::V4(address, prefix), Address::V4(ip)) => same_prefix(
            address as nat,
            ip as nat,
            prefix as nat,
            32,
        ),
        (Network::V6(address, prefix), Address::V6(ip)) => same_prefix(
            address as nat,
            ip as nat,
            prefix as nat,
            128,
        ),
        _ => false,
    }
}

/// Calls `Ipv4Net::contains`: an address is contained where it agrees with the network's in the
/// prefix, which is where it lies between the network and the broadcast address.
#[verifier::external_body]
fn v4_contains(address: u32, prefix: u8, ip: u32) -> (inside: bool)
    requires
        prefix <= 32,
    ensures
        inside == same_prefix(address as nat, ip as nat, prefix as nat, 32),
{
    let network = Ipv4Net::new(address.into(), prefix).unwrap();
    let host = Ipv4Net::new(ip.into(), 32).unwrap();
    network.contains(&host.addr())
}

/// Calls `Ipv6Net::contains`: an address is contained where it agrees with the network's in the
/// prefix, which is where it lies between the network and the last address.
#[verifier::external_body]
fn v6_contains(address: u128, prefix: u8, ip: u128) -> (inside: bool)
    requires
        prefix <= 128,
    ensures
        inside == same_prefix(address as nat, ip as nat, prefix as nat, 128),
{
    let network = Ipv6Net::new(address.into(), prefix).unwrap();
    let host = Ipv6Net::new(ip.into(), 128).unwrap();
    network.contains(&host.addr())
}

/// The network that `IpNet::from_str` reads out of a text.
pub uninterp spec fn parsed_network(text: Seq<char>) -> Option<Network>;

/// Calls `IpNet::from_str`. Whether there is a network, and which, depends on the text alone; its
/// prefix is no longer than an address, and there is one text for every error.
#[verifier::external_body]
pub(crate) fn read_network(text: &str) -> (network: Result<Network, String>)
    ensures
        match network {
            Ok(n) => parsed_network(text@) == Some(n) && n.wf(),
            Err(e) => parsed_network(text@) is None && e@ == "invalid IP address syntax"@,
        },
{
    match text.parse::<IpNet>() {
        Ok(IpNet::V4(n)) => Ok(Network::V4(n.addr().into(), n.prefix_len())),
        Ok(IpNet::V6(n)) => Ok(Network::V6(n.addr().into(), n.prefix_len())),
        Err(e) => Err(e.to_string()),
    }
}

/// Tells whether the address lies in the network.
pub fn contains(network: Network, ip: Address) -> (inside: bool)
    requires
        network.wf(),
    ensures
        inside == in_network(network, ip),
{
    match (network, ip) {
        (Network::V4(address, prefix), Address::V4(ip)) => v4_contains(address, prefix, ip),
        (Network::V6(address, prefix), Address::V6(ip)) => v6_contains(address, prefix, ip),
        _ => false,
    }
}

/// The addresses of the host itself: `127.0.0.0/8` and `::1`.
pub open spec fn is_loopback(ip: Address) -> bool {
    match ip {
        Address::V4(n) => n / 0x100_0000 == 127,
        Address::V6(n) => n == 1,
    }
}

/// Requests may come from the host itself and from the networks.
pub open spec fn source_allowed(ip: Address, networks: Seq<Network>) -> bool {
    is_loopback(ip) || exists|i: int|
        0 <= i < networks.len() && in_network(#[trigger] networks[i], ip)
}

/// Tells whether a request may come from the address.
pub fn allowed_source(ip: Address, networks: &Vec<Network>) -> (allowed: bool)
    requires
        forall|i: int| 0 <= i < networks.len() ==> (#[trigger] networks@[i]).wf(),
    ensures
        allowed == source_allowed(ip, networks@),
{
    let loopback = match ip {
        Address::V4(n) => n / 0x100_0000 == 127,
        Address::V6(n) => n == 1,
    };
    if loopback {
        return true;
    }
    let mut i: usize = 0;
    while i < networks.len()
        invariant
            i <= networks.len(),
            !is_loopback(ip),
            forall|j: int| 0 <= j < networks.len() ==> (#[trigger] networks@[j]).wf(),
            forall|j: int| 0 <= j < i ==> !in_network(#[trigger] networks@[j], ip),
        decreases networks.len() - i,
    {
        if contains(networks[i], ip) {
            assert(in_network(networks@[i as int], ip));
            return true;
        }
        i = i + 1;
    }
    false
}

/// The machine itself is always allowed.
pub proof fn law_loopback_is_allowed(ip: Address, networks: Seq<Network>)
    requires
        is_loopback(ip),
    ensures
        source_allowed(ip, networks),
{
}

} // verus!
