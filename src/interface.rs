//! Network interfaces and addresses, as plain values, and the choice of a local address.

use vstd::prelude::*;

verus! {

/// An IP version.
#[derive(Clone, Copy, Debug, PartialEq, Eq, Structural)]
pub enum IP {
    V4,
    V6,
}

/// An IP address: four octets, or eight 16-bit segments.
#[derive(Clone, Copy, Debug, PartialEq, Eq, Structural)]
pub enum IpAddress {
    V4(u8, u8, u8, u8),
    V6(u16, u16, u16, u16, u16, u16, u16, u16),
}

/// A host network interface: its system name and its addresses.
#[derive(Debug)]
pub struct NetworkInterface {
    pub name: String,
    pub ips: Vec<IpAddress>,
}

impl IpAddress {
    pub open spec fn version(self) -> IP {
        match self {
            IpAddress::V4(..) => IP::V4,
            IpAddress::V6(..) => IP::V6,
        }
    }

    /// The wildcard address of a version: `0.0.0.0` or `::`.
    pub fn unspecified(version: IP) -> (r: IpAddress)
        ensures
            r.version() == version,
            r == (match version {
                IP::V4 => IpAddress::V4(0, 0, 0, 0),
                IP::V6 => IpAddress::V6(0, 0, 0, 0, 0, 0, 0, 0),
            }),
    {
        match version {
            IP::V4 => IpAddress::V4(0, 0, 0, 0),
            IP::V6 => IpAddress::V6(0, 0, 0, 0, 0, 0, 0, 0),
        }
    }

    pub fn is_ipv4(&self) -> (r: bool)
        ensures
            r == (self.version() == IP::V4),
    {
        match self {
            IpAddress::V4(..) => true,
            IpAddress::V6(..) => false,
        }
    }
}

/// `a` is of the version asked for, or any version when none is.
pub open spec fn version_matches(a: IpAddress, version: Option<IP>) -> bool {
    match version {
        None => true,
        Some(v) => a.version() == v,
    }
}

/// The addresses of `ips` of the version asked for, in order.
pub open spec fn addresses_of_version(ips: Seq<IpAddress>, version: Option<IP>) -> Seq<IpAddress>
    decreases ips.len(),
{
    if ips.len() == 0 {
        Seq::empty()
    } else {
        let rest = addresses_of_version(ips.drop_last(), version);
        if version_matches(ips.last(), version) {
            rest.push(ips.last())
        } else {
            rest
        }
    }
}

/// The index of the first interface named `name`, or the number of interfaces.
pub open spec fn interface_index(interfaces: Seq<(Seq<char>, Seq<IpAddress>)>, name: Seq<char>, i: int) -> int
    decreases interfaces.len() - i,
{
    if i < 0 || i >= interfaces.len() {
        interfaces.len() as int
    } else if interfaces[i].0 == name {
        i
    } else {
        interface_index(interfaces, name, i + 1)
    }
}

pub open spec fn interfaces_view(v: Seq<NetworkInterface>) -> Seq<(Seq<char>, Seq<IpAddress>)> {
    v.map_values(|n: NetworkInterface| (n.name@, n.ips@))
}

/// The addresses of the version asked for on the first interface named `name`.
pub open spec fn addresses_for(
    interfaces: Seq<(Seq<char>, Seq<IpAddress>)>,
    name: Seq<char>,
    version: Option<IP>,
) -> Seq<IpAddress> {
    let i = interface_index(interfaces, name, 0);
    if i < interfaces.len() {
        addresses_of_version(interfaces[i].1, version)
    } else {
        Seq::empty()
    }
}

/// The addresses of the version asked for (any when `None`) on the interface named
/// `interface`; none when there is no such interface.
pub fn ip_addresses_for_interface(
    interfaces: &Vec<NetworkInterface>,
    interface: &str,
    version: Option<IP>,
) -> (r: Vec<IpAddress>)
    ensures
        r@ == addresses_for(interfaces_view(interfaces@), interface@, version),
{
    let ghost iv = interfaces_view(interfaces@);
    let name = interface.to_string();
    let mut i: usize = 0;
    while i < interfaces.len() && !(interfaces[i].name == name)
        invariant
            i <= interfaces@.len(),
            iv == interfaces_view(interfaces@),
            name@ == interface@,
            interface_index(iv, interface@, 0) == interface_index(iv, interface@, i as int),
        decreases interfaces.len() - i,
    {
        assert(iv[i as int].0 == interfaces@[i as int].name@);
        i = i + 1;
    }
    let mut out: Vec<IpAddress> = Vec::new();
    if i == interfaces.len() {
        return out;
    }
    assert(iv[i as int].0 == interfaces@[i as int].name@);
    let ips = &interfaces[i].ips;
    let ghost src = ips@;
    assert(iv[i as int].1 == src);
    let mut j: usize = 0;
    while j < ips.len()
        invariant
            j <= src.len(),
            src == ips@,
            out@ == addresses_of_version(src.subrange(0, j as int), version),
        decreases ips.len() - j,
    {
        let a = ips[j];
        let keep = match version {
            None => true,
            Some(IP::V4) => a.is_ipv4(),
            Some(IP::V6) => !a.is_ipv4(),
        };
        proof {
            let s = src.subrange(0, j + 1);
            assert(s.drop_last() =~= src.subrange(0, j as int));
            assert(s.last() == a);
        }
        if keep {
            out.push(a);
        }
        j = j + 1;
    }
    assert(src.subrange(0, j as int) =~= src);
    out
}

} // verus!

verus! {

/// The first address of the version asked for on the named interface; none when no interface
/// is named (the caller then binds the wildcard address), or it has no such address.
pub fn ip_address_for_interface(
    interfaces: &Vec<NetworkInterface>,
    network_interface: &Option<String>,
    network_version: &Option<IP>,
) -> (r: Option<IpAddress>)
    ensures
        r == match network_interface {
            None => None,
            Some(name) => {
                let a = addresses_for(interfaces_view(interfaces@), name@, *network_version);
                if a.len() > 0 {
                    Some(a[0])
                } else {
                    None
                }
            },
        },
{
    match network_interface {
        None => None,
        Some(name) => {
            let addresses = ip_addresses_for_interface(interfaces, name.as_str(), *network_version);
            if addresses.len() == 0 {
                None
            } else {
                Some(addresses[0])
            }
        },
    }
}

} // verus!
