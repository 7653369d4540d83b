use vstd::prelude::*;

use crate::text::{owned, push_decimal, push_str, spec_decimal, str_eq};

verus! {

/// A local IPv4 interface: its name and its address (first octet in the high byte).
#[derive(Clone, Debug, PartialEq, Eq)]
pub struct SelectedInterface {
    pub name: String,
    pub address: u32,
}

/// The dotted-quad text of an IPv4 address.
pub open spec fn spec_ipv4_text(ip: u32) -> Seq<char> {
    spec_decimal((ip / 0x0100_0000) as nat) + "."@ + spec_decimal(((ip / 0x1_0000) % 0x100) as nat)
        + "."@ + spec_decimal(((ip / 0x100) % 0x100) as nat) + "."@ + spec_decimal(
        (ip % 0x100) as nat,
    )
}

/// The dotted-quad text of an IPv4 address.
pub fn format_ipv4(ip: u32) -> (r: String)
    ensures
        r@ == spec_ipv4_text(ip),
{
    let mut s = String::new();
    push_decimal(&mut s, (ip / 0x0100_0000) as u64);
    push_str(&mut s, ".");
    push_decimal(&mut s, ((ip / 0x1_0000) % 0x100) as u64);
    push_str(&mut s, ".");
    push_decimal(&mut s, ((ip / 0x100) % 0x100) as u64);
    push_str(&mut s, ".");
    push_decimal(&mut s, (ip % 0x100) as u64);
    s
}

/// The URI a device advertises: CoAP at its address and port.
pub open spec fn spec_device_uri(ip: u32, port: u16) -> Seq<char> {
    "coap://"@ + spec_ipv4_text(ip) + ":"@ + spec_decimal(port as nat)
}

/// The URI a device at `ip` and `port` advertises.
pub fn device_uri(ip: u32, port: u16) -> (r: String)
    ensures
        r@ == spec_device_uri(ip, port),
{
    let mut s = owned("coap://");
    let text = format_ipv4(ip);
    push_str(&mut s, text.as_str());
    push_str(&mut s, ":");
    push_decimal(&mut s, port as u64);
    s
}

/// The index of the first interface with an address, if any.
pub open spec fn spec_first_with_address(interfaces: Seq<SelectedInterface>, address: u32) -> Option<
    int,
>
    decreases interfaces.len(),
{
    if interfaces.len() == 0 {
        None
    } else {
        match spec_first_with_address(interfaces.drop_last(), address) {
            Some(i) => Some(i),
            None => if interfaces.last().address == address {
                Some(interfaces.len() - 1)
            } else {
                None
            },
        }
    }
}

/// The index of the first interface with a name, if any.
pub open spec fn spec_first_with_name(interfaces: Seq<SelectedInterface>, name: Seq<char>) -> Option<
    int,
>
    decreases interfaces.len(),
{
    if interfaces.len() == 0 {
        None
    } else {
        match spec_first_with_name(interfaces.drop_last(), name) {
            Some(i) => Some(i),
            None => if interfaces.last().name@ == name {
                Some(interfaces.len() - 1)
            } else {
                None
            },
        }
    }
}

/// An interface with its name as a sequence.
pub struct InterfaceView {
    pub name: Seq<char>,
    pub address: u32,
}

/// The view of an interface.
pub open spec fn interface_view(i: SelectedInterface) -> InterfaceView {
    InterfaceView { name: i.name@, address: i.address }
}

/// The interface a device answers discovery on: the one with the bind address (or, where
/// none has it, that address under the name `manual`); else the one with the requested
/// name, or with the advertised address; else the only interface there is.
pub open spec fn spec_select_interface(
    bind_ip: u32,
    interface_name: Option<Seq<char>>,
    advertise_address: Option<u32>,
    interfaces: Seq<SelectedInterface>,
) -> Result<InterfaceView, Seq<char>> {
    if bind_ip != 0 {
        match spec_first_with_address(interfaces, bind_ip) {
            Some(i) => Ok(interface_view(interfaces[i])),
            None => Ok(InterfaceView { name: "manual"@, address: bind_ip }),
        }
    } else if interface_name is Some {
        let n = interface_name->0;
        match spec_first_with_name(interfaces, n) {
            Some(i) => Ok(interface_view(interfaces[i])),
            None => Err("no IPv4 interface named "@ + n),
        }
    } else if advertise_address is Some {
        let a = advertise_address->0;
        match spec_first_with_address(interfaces, a) {
            Some(i) => Ok(interface_view(interfaces[i])),
            None => Err("no IPv4 interface with address "@ + spec_ipv4_text(a)),
        }
    } else if interfaces.len() == 1 {
        Ok(interface_view(interfaces[0]))
    } else if interfaces.len() == 0 {
        Err("no non-loopback IPv4 interface found; pass --iface or --advertise-address"@)
    } else {
        Err("multiple non-loopback IPv4 interfaces found; pass --iface or --advertise-address"@)
    }
}

fn first_with_address(interfaces: &[SelectedInterface], address: u32) -> (r: Option<usize>)
    ensures
        r matches Some(i) ==> (i as int) < interfaces@.len(),
        match spec_first_with_address(interfaces@, address) {
            Some(i) => r matches Some(k) && k as int == i,
            None => r is None,
        },
{
    let mut i: usize = 0;
    while i < interfaces.len()
        invariant
            i <= interfaces@.len(),
            spec_first_with_address(interfaces@.subrange(0, i as int), address) is None,
        decreases interfaces@.len() - i,
    {
        let ghost sub = interfaces@.subrange(0, i + 1);
        assert(sub.drop_last() =~= interfaces@.subrange(0, i as int));
        if interfaces[i].address == address {
            proof {
                lemma_first_address_extends(interfaces@, address, i as int + 1, i as int);
            }
            return Some(i);
        }
        i = i + 1;
    }
    assert(interfaces@.subrange(0, interfaces@.len() as int) =~= interfaces@);
    None
}

proof fn lemma_first_address_extends(s: Seq<SelectedInterface>, address: u32, k: int, j: int)
    requires
        0 < k <= s.len(),
        spec_first_with_address(s.subrange(0, k), address) == Some(j),
    ensures
        spec_first_with_address(s, address) == Some(j),
    decreases s.len() - k,
{
    if k < s.len() {
        assert(s.subrange(0, k + 1).drop_last() =~= s.subrange(0, k));
        assert(spec_first_with_address(s.subrange(0, k + 1), address) == Some(j));
        lemma_first_address_extends(s, address, k + 1, j);
    } else {
        assert(s.subrange(0, k) =~= s);
    }
}

proof fn lemma_first_name_extends(s: Seq<SelectedInterface>, name: Seq<char>, k: int, j: int)
    requires
        0 < k <= s.len(),
        spec_first_with_name(s.subrange(0, k), name) == Some(j),
    ensures
        spec_first_with_name(s, name) == Some(j),
    decreases s.len() - k,
{
    if k < s.len() {
        assert(s.subrange(0, k + 1).drop_last() =~= s.subrange(0, k));
        assert(spec_first_with_name(s.subrange(0, k + 1), name) == Some(j));
        lemma_first_name_extends(s, name, k + 1, j);
    } else {
        assert(s.subrange(0, k) =~= s);
    }
}

fn first_with_name(interfaces: &[SelectedInterface], name: &str) -> (r: Option<usize>)
    ensures
        r matches Some(i) ==> (i as int) < interfaces@.len(),
        match spec_first_with_name(interfaces@, name@) {
            Some(i) => r matches Some(k) && k as int == i,
            None => r is None,
        },
{
    let mut i: usize = 0;
    while i < interfaces.len()
        invariant
            i <= interfaces@.len(),
            spec_first_with_name(interfaces@.subrange(0, i as int), name@) is None,
        decreases interfaces@.len() - i,
    {
        let ghost sub = interfaces@.subrange(0, i + 1);
        assert(sub.drop_last() =~= interfaces@.subrange(0, i as int));
        if str_eq(interfaces[i].name.as_str(), name) {
            proof {
                lemma_first_name_extends(interfaces@, name@, i as int + 1, i as int);
            }
            return Some(i);
        }
        i = i + 1;
    }
    assert(interfaces@.subrange(0, interfaces@.len() as int) =~= interfaces@);
    None
}

fn copy_interface(i: &SelectedInterface) -> (r: SelectedInterface)
    ensures
        interface_view(r) == interface_view(*i),
{
    SelectedInterface { name: owned(i.name.as_str()), address: i.address }
}

/// Chooses the interface a device runs on from the local IPv4 interfaces (loopback left
/// out).
pub fn select_interface(
    bind_ip: u32,
    interface_name: Option<&str>,
    advertise_address: Option<u32>,
    interfaces: &[SelectedInterface],
) -> (r: Result<SelectedInterface, String>)
    ensures
        match spec_select_interface(
            bind_ip,
            match interface_name {
                Some(n) => Some(n@),
                None => None,
            },
            advertise_address,
            interfaces@,
        ) {
            Ok(v) => r matches Ok(i) && interface_view(i) == v,
            Err(m) => r matches Err(e) && e@ == m,
        },
{
    if bind_ip != 0 {
        return match first_with_address(interfaces, bind_ip) {
            Some(i) => Ok(copy_interface(&interfaces[i])),
            None => Ok(SelectedInterface { name: owned("manual"), address: bind_ip }),
        };
    }
    if let Some(n) = interface_name {
        return match first_with_name(interfaces, n) {
            Some(i) => Ok(copy_interface(&interfaces[i])),
            None => {
                let mut m = owned("no IPv4 interface named ");
                push_str(&mut m, n);
                Err(m)
            },
        };
    }
    if let Some(a) = advertise_address {
        return match first_with_address(interfaces, a) {
            Some(i) => Ok(copy_interface(&interfaces[i])),
            None => {
                let mut m = owned("no IPv4 interface with address ");
                let text = format_ipv4(a);
                push_str(&mut m, text.as_str());
                Err(m)
            },
        };
    }
    if interfaces.len() == 1 {
        Ok(copy_interface(&interfaces[0]))
    } else if interfaces.len() == 0 {
        Err(owned("no non-loopback IPv4 interface found; pass --iface or --advertise-address"))
    } else {
        Err(owned("multiple non-loopback IPv4 interfaces found; pass --iface or --advertise-address"))
    }
}

/// The address a device advertises: the configured one; else the address its socket is
/// bound to, where that is a concrete one; else the address of its interface.
pub fn advertised_ip(advertise_address: Option<u32>, local_ip: u32, interface_address: u32) -> (r:
    u32)
    ensures
        r == match advertise_address {
            Some(a) => a,
            None => if local_ip != 0 {
                local_ip
            } else {
                interface_address
            },
        },
{
    match advertise_address {
        Some(a) => a,
        None => if local_ip != 0 {
            local_ip
        } else {
            interface_address
        },
    }
}

} // verus!
