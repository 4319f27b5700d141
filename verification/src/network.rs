//! The machine's network interfaces as the console discovery sees them, and
//! the console's answer to a `WING?` probe.

use vstd::prelude::*;
use crate::order::{is_stable_sort_of, stable_sort_by_key};
use crate::text::{
    chars_of, contains, contains_chars, from_utf8_lossy, lowercase, split_chars, split_on,
    starts_with, starts_with_chars, to_lowercase, trim, trim_ws, utf8_lossy,
};
use crate::wing::{is_wing_ident, piece_or, piece_or_default};

verus! {

/// The address of an interface as the system reports it.
#[derive(Debug, Clone, Copy, PartialEq, Eq)]
pub enum InterfaceAddr {
    /// An IPv4 address with its netmask and, where there is one, its
    /// broadcast address.
    V4 { ip: [u8; 4], netmask: [u8; 4], broadcast: Option<[u8; 4]> },
    /// An IPv6 address.
    V6,
}

/// One interface address as the system lists it.
#[derive(Debug, Clone)]
pub struct InterfaceRecord {
    pub name: String,
    pub is_loopback: bool,
    pub addr: InterfaceAddr,
}

/// An IPv4 interface through which the console may be reached.
#[derive(Debug, Clone, PartialEq, Eq)]
pub struct LocalInterface {
    pub name: String,
    pub ip: [u8; 4],
    pub prefix_len: Option<u8>,
    pub broadcast: Option<[u8; 4]>,
}

/// What the console said about itself in answer to a probe.
#[derive(Debug, Clone, PartialEq, Eq)]
pub struct WingProbeResult {
    pub ip: [u8; 4],
    pub model: String,
    pub serial: String,
    pub firmware: String,
}

/// The order of an interface name that is already in lowercase: Ethernet
/// (`eth…`, `en…`) first, then Wi-Fi (`wlan…`, `wi…`), then other
/// adapters, then VPN tunnels (holding `vpn` or `tun`), then container
/// links (holding `docker` or `veth`).
pub open spec fn priority_of_lower(n: Seq<char>) -> u8 {
    if starts_with(n, "eth"@) || starts_with(n, "en"@) {
        0
    } else if starts_with(n, "wlan"@) || starts_with(n, "wi"@) {
        1
    } else if contains(n, "vpn"@) || contains(n, "tun"@) {
        3
    } else if contains(n, "docker"@) || contains(n, "veth"@) {
        4
    } else {
        2
    }
}

/// The order of an interface name: that of its lowercase form.
pub open spec fn spec_adapter_priority(name: Seq<char>) -> u8 {
    priority_of_lower(lowercase(name))
}

/// The order of an interface name that is already in lowercase.
pub fn priority_of_lowercase(n: &str) -> (r: u8)
    ensures
        r == priority_of_lower(n@),
{
    let c = chars_of(n);
    if starts_with_chars(&c, &chars_of("eth")) || starts_with_chars(&c, &chars_of("en")) {
        0
    } else if starts_with_chars(&c, &chars_of("wlan")) || starts_with_chars(&c, &chars_of("wi")) {
        1
    } else if contains_chars(&c, &chars_of("vpn")) || contains_chars(&c, &chars_of("tun")) {
        3
    } else if contains_chars(&c, &chars_of("docker")) || contains_chars(&c, &chars_of("veth")) {
        4
    } else {
        2
    }
}

/// The order in which interfaces are listed: Ethernet 0, Wi-Fi 1, other 2,
/// VPN 3, container links 4, judged on the lowercase name.
pub fn adapter_priority(name: &str) -> (r: u8)
    ensures
        r == spec_adapter_priority(name@),
{
    let lower = to_lowercase(name);
    priority_of_lowercase(lower.as_str())
}

/// The 32-bit value of an IPv4 address, first octet most significant.
pub open spec fn ipv4_bits(a: [u8; 4]) -> u32 {
    (a[0] as int * 0x100_0000 + a[1] as int * 0x1_0000 + a[2] as int * 0x100 + a[3] as int) as u32
}

/// The interface that a record stands for, if it is one through which the
/// console is looked for: not loopback, IPv4, and not link-local
/// (169.254.x.x). Its prefix length is the number of leading one bits of
/// its netmask.
pub open spec fn usable_interface(r: InterfaceRecord) -> Option<LocalInterface> {
    if r.is_loopback {
        None
    } else {
        match r.addr {
            InterfaceAddr::V4 { ip, netmask, broadcast } => if ip[0] == 169 && ip[1] == 254 {
                None
            } else {
                Some(
                    LocalInterface {
                        name: r.name,
                        ip,
                        prefix_len: Some(
                            vstd::std_specs::bits::u32_leading_ones(ipv4_bits(netmask)) as u8,
                        ),
                        broadcast,
                    },
                )
            },
            InterfaceAddr::V6 => None,
        }
    }
}

/// The usable interfaces of a list of records, in their order.
pub open spec fn usable_interfaces(rs: Seq<InterfaceRecord>) -> Seq<LocalInterface> {
    rs.filter_map(|r: InterfaceRecord| usable_interface(r))
}

/// The key by which interfaces are listed.
pub open spec fn by_priority() -> spec_fn(LocalInterface) -> u32 {
    |i: LocalInterface| spec_adapter_priority(i.name@) as u32
}

/// The usable interface that a record stands for, if any.
fn to_usable(r: &InterfaceRecord) -> (o: Option<LocalInterface>)
    ensures
        o == usable_interface(*r),
{
    if r.is_loopback {
        return None;
    }
    match r.addr {
        InterfaceAddr::V4 { ip, netmask, broadcast } => {
            if ip[0] == 169 && ip[1] == 254 {
                None
            } else {
                let bits: u32 = netmask[0] as u32 * 0x100_0000 + netmask[1] as u32 * 0x1_0000
                    + netmask[2] as u32 * 0x100 + netmask[3] as u32;
                Some(
                    LocalInterface {
                        name: r.name.clone(),
                        ip,
                        prefix_len: Some(bits.leading_ones() as u8),
                        broadcast,
                    },
                )
            }
        },
        InterfaceAddr::V6 => None,
    }
}

/// The interfaces through which the console is looked for: the records
/// that are neither loopback, nor IPv6, nor link-local, listed Ethernet
/// first, then Wi-Fi, other, VPN and container links, keeping the system's
/// order among interfaces of the same kind.
pub fn select_interfaces(records: &Vec<InterfaceRecord>) -> (out: Vec<LocalInterface>)
    ensures
        is_stable_sort_of(out@, usable_interfaces(records@), by_priority()),
{
    let mut found: Vec<LocalInterface> = Vec::new();
    let mut keys: Vec<u32> = Vec::new();
    let mut i: usize = 0;
    while i < records.len()
        invariant
            i <= records@.len(),
            found@ == usable_interfaces(records@.take(i as int)),
            found@.len() == keys@.len(),
            forall|j: int| 0 <= j < found@.len() ==> keys@[j] == (by_priority())(#[trigger] found@[j]),
        decreases records@.len() - i,
    {
        let ghost before = records@.take(i as int);
        assert(records@.take(i + 1).drop_last() =~= before);
        assert(records@.take(i + 1).last() == records@[i as int]);
        match to_usable(&records[i]) {
            Some(iface) => {
                let k = adapter_priority(iface.name.as_str());
                found.push(iface);
                keys.push(k as u32);
            },
            None => {},
        }
        i = i + 1;
    }
    assert(records@.take(records@.len() as int) =~= records@);
    stable_sort_by_key(found, keys, Ghost(by_priority()))
}

/// The answer to a probe sent to `target`, from its text once trimmed: an ID
/// reply (starting with `WING` and holding a comma) gives the model, serial
/// and firmware from comma-separated fields 3, 4 and 5, with
/// `wing-fullsize`, `?` and `?` where a field is missing.
pub fn parse_probe_text(target: [u8; 4], text: &str) -> (r: Option<WingProbeResult>)
    ensures
        r is Some <==> is_wing_ident(trim_ws(text@)),
        r matches Some(p) ==> {
            let parts = split_on(trim_ws(text@), ',');
            &&& p.ip == target
            &&& p.model@ == piece_or(parts, 3, "wing-fullsize"@)
            &&& p.serial@ == piece_or(parts, 4, "?"@)
            &&& p.firmware@ == piece_or(parts, 5, "?"@)
        },
{
    let t = trim(text);
    let chars = chars_of(t);
    if starts_with_chars(&chars, &chars_of("WING")) && contains_chars(&chars, &chars_of(",")) {
        let parts = split_chars(&chars, ',');
        Some(
            WingProbeResult {
                ip: target,
                model: piece_or_default(&parts, 3, "wing-fullsize"),
                serial: piece_or_default(&parts, 4, "?"),
                firmware: piece_or_default(&parts, 5, "?"),
            },
        )
    } else {
        None
    }
}

/// The answer to a probe sent to `target`, from the datagram that came
/// back: its bytes decoded as UTF-8 with invalid sequences replaced, then
/// read as `parse_probe_text` reads text.
pub fn parse_probe_reply(target: [u8; 4], data: &[u8]) -> (r: Option<WingProbeResult>)
    ensures
        r is Some <==> is_wing_ident(trim_ws(utf8_lossy(data@))),
        r matches Some(p) ==> {
            let parts = split_on(trim_ws(utf8_lossy(data@)), ',');
            &&& p.ip == target
            &&& p.model@ == piece_or(parts, 3, "wing-fullsize"@)
            &&& p.serial@ == piece_or(parts, 4, "?"@)
            &&& p.firmware@ == piece_or(parts, 5, "?"@)
        },
{
    let text = from_utf8_lossy(data);
    parse_probe_text(target, text.as_str())
}

/// Every interface listed comes from a record of the system's list that is
/// neither loopback nor IPv6, and none is link-local (169.254.x.x).
pub proof fn law_listed_interfaces_are_usable(records: Seq<InterfaceRecord>, out: Seq<LocalInterface>)
    requires
        is_stable_sort_of(out, usable_interfaces(records), by_priority()),
    ensures
        forall|i: int|
            0 <= i < out.len() ==> {
                &&& exists|r: InterfaceRecord|
                    records.contains(r) && !r.is_loopback && r.addr is V4 && usable_interface(r)
                        == Some(#[trigger] out[i])
                &&& !(out[i].ip[0] == 169 && out[i].ip[1] == 254)
            },
{
    assert forall|i: int| 0 <= i < out.len() implies {
        &&& exists|r: InterfaceRecord|
            records.contains(r) && !r.is_loopback && r.addr is V4 && usable_interface(r) == Some(
                #[trigger] out[i],
            )
        &&& !(out[i].ip[0] == 169 && out[i].ip[1] == 254)
    } by {
        let x = out[i];
        let k = (by_priority())(x);
        let pred = crate::order::key_is(by_priority(), k);
        let cands = usable_interfaces(records);
        out.lemma_filter_contains(pred, i);
        assert(crate::order::keyed_with(out, by_priority(), k) == crate::order::keyed_with(
            cands,
            by_priority(),
            k,
        ));
        cands.lemma_filter_contains_rev(pred, x);
        records.lemma_filter_map_contains(|r: InterfaceRecord| usable_interface(r), x);
        let r = choose|r: InterfaceRecord|
            #[trigger] records.contains(r) && usable_interface(r) == Some(x);
        assert(records.contains(r) && !r.is_loopback && r.addr is V4 && usable_interface(r) == Some(
            x,
        ));
    }
}

/// Lowercase names are ranked by kind: `eth…`/`en…` 0, `wi…`/`wlan…` 1;
/// other names holding `tun` or `vpn` 3; other names holding `docker` or
/// `veth` but neither `tun` nor `vpn` 4; everything else 2.
pub proof fn law_priority_by_name(n: Seq<char>, k: int)
    ensures
        n.len() >= 2 && n[0] == 'e' && n[1] == 'n' ==> priority_of_lower(n) == 0,
        n.len() >= 3 && n[0] == 'e' && n[1] == 't' && n[2] == 'h' ==> priority_of_lower(n) == 0,
        n.len() >= 2 && n[0] == 'w' && n[1] == 'i' ==> priority_of_lower(n) == 1,
        n.len() >= 1 && n[0] != 'e' && n[0] != 'w' && 0 <= k && k + 3 <= n.len() && (
        n.subrange(k, k + 3) == seq!['t', 'u', 'n'] || n.subrange(k, k + 3) == seq!['v', 'p', 'n'])
            ==> priority_of_lower(n) == 3,
        n.len() >= 1 && n[0] != 'e' && n[0] != 'w' && !contains(n, "tun"@) && !contains(n, "vpn"@)
            && 0 <= k && k + 6 <= n.len() && n.subrange(k, k + 6) == seq![
            'd',
            'o',
            'c',
            'k',
            'e',
            'r',
        ] ==> priority_of_lower(n) == 4,
        n.len() == 0 ==> priority_of_lower(n) == 2,
{
    reveal_strlit("eth");
    reveal_strlit("en");
    reveal_strlit("wi");
    reveal_strlit("wlan");
    reveal_strlit("tun");
    reveal_strlit("vpn");
    reveal_strlit("docker");
    reveal_strlit("veth");
    if n.len() >= 2 {
        assert(n.subrange(0, 2) =~= seq![n[0], n[1]]);
    }
    if n.len() >= 3 {
        assert(n.subrange(0, 3) =~= seq![n[0], n[1], n[2]]);
    }
    if n.len() >= 4 {
        assert(n.subrange(0, 4) =~= seq![n[0], n[1], n[2], n[3]]);
    }
    if n.len() >= 2 && n[0] == 'e' && n[1] == 'n' {
        assert(n.subrange(0, 2) =~= "en"@);
    }
    if n.len() >= 3 && n[0] == 'e' && n[1] == 't' && n[2] == 'h' {
        assert(n.subrange(0, 3) =~= "eth"@);
    }
    if n.len() >= 2 && n[0] == 'w' && n[1] == 'i' {
        assert(n.subrange(0, 2) =~= "wi"@);
    }
    if 0 <= k && k + 3 <= n.len() && n.subrange(k, k + 3) == seq!['t', 'u', 'n'] {
        assert(n.subrange(k, k + 3) =~= "tun"@);
        assert(crate::text::contains_at(n, "tun"@, k));
    }
    if 0 <= k && k + 3 <= n.len() && n.subrange(k, k + 3) == seq!['v', 'p', 'n'] {
        assert(n.subrange(k, k + 3) =~= "vpn"@);
        assert(crate::text::contains_at(n, "vpn"@, k));
    }
    if 0 <= k && k + 6 <= n.len() && n.subrange(k, k + 6) == seq!['d', 'o', 'c', 'k', 'e', 'r'] {
        assert(n.subrange(k, k + 6) =~= "docker"@);
        assert(crate::text::contains_at(n, "docker"@, k));
    }
    if n.len() == 0 {
        assert(!contains(n, "tun"@));
        assert(!contains(n, "vpn"@));
        assert(!contains(n, "docker"@));
        assert(!contains(n, "veth"@));
    }
}

} // verus!
