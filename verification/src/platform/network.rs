//! The network interfaces that discovery can use.

use vstd::prelude::*;

use crate::seq_facts::{lemma_filter_members, lemma_filter_push, lemma_filter_step};

verus! {

/// An IPv6 address as its eight segments, the first of them first.
#[derive(Clone, Copy, Debug, PartialEq, Eq, Structural)]
pub struct Ipv6Addr {
    pub a: u16,
    pub b: u16,
    pub c: u16,
    pub d: u16,
    pub e: u16,
    pub f: u16,
    pub g: u16,
    pub h: u16,
}

impl Ipv6Addr {
    /// The address of the given segments.
    pub fn new(a: u16, b: u16, c: u16, d: u16, e: u16, f: u16, g: u16, h: u16) -> (addr: Ipv6Addr)
        ensures
            addr == (Ipv6Addr { a, b, c, d, e, f, g, h }),
    {
        Ipv6Addr { a, b, c, d, e, f, g, h }
    }
}

/// An IP address: the number that four octets spell, or eight segments.
#[derive(Clone, Copy, Debug, PartialEq, Eq, Structural)]
pub enum IpAddr {
    V4(u32),
    V6(Ipv6Addr),
}

/// An address of a network interface, as the system lists them. An interface with several
/// addresses has several entries with its number.
#[derive(Clone, Copy, Debug, PartialEq, Eq, Structural)]
pub struct InterfaceAddress {
    pub interface: u32,
    pub is_running: bool,
    pub addr: IpAddr,
}

/// Whether an entry is the IPv4 address of an interface that runs.
pub open spec fn is_running_v4(entry: InterfaceAddress) -> bool {
    entry.is_running && entry.addr is V4
}

/// Whether the interface with a number runs and has an IPv4 address.
pub open spec fn has_v4(entries: Seq<InterfaceAddress>, interface: u32) -> bool {
    exists|i: int|
        0 <= i < entries.len() && is_running_v4(#[trigger] entries[i]) && entries[i].interface
            == interface
}

/// Whether an entry is the IPv6 address of an interface that runs and has an IPv4 address.
pub open spec fn is_usable_v6(entries: Seq<InterfaceAddress>, entry: InterfaceAddress) -> bool {
    entry.is_running && entry.addr is V6 && has_v4(entries, entry.interface)
}

/// The IPv4 addresses of interfaces that run, in the order of the entries.
pub open spec fn running_v4(entries: Seq<InterfaceAddress>) -> Seq<IpAddr> {
    entries.filter(|e: InterfaceAddress| is_running_v4(e)).map_values(|e: InterfaceAddress| e.addr)
}

/// The IPv6 addresses among `entries` whose interfaces run and have an IPv4 address among `all`,
/// in the order of the entries.
pub open spec fn usable_v6(all: Seq<InterfaceAddress>, entries: Seq<InterfaceAddress>) -> Seq<
    IpAddr,
> {
    entries.filter(|e: InterfaceAddress| is_usable_v6(all, e)).map_values(
        |e: InterfaceAddress| e.addr,
    )
}

/// The usable addresses: the IPv4 addresses of interfaces that run, then the IPv6 addresses of
/// those of them that have an IPv4 address, each in the order of the entries.
pub open spec fn usable(entries: Seq<InterfaceAddress>) -> Seq<IpAddr> {
    running_v4(entries) + usable_v6(entries, entries)
}

/// Whether an interface runs and has an IPv4 address.
fn runs_with_v4(entries: &Vec<InterfaceAddress>, interface: u32) -> (r: bool)
    ensures
        r == has_v4(entries@, interface),
{
    let mut i: usize = 0;
    while i < entries.len()
        invariant
            i <= entries@.len(),
            forall|j: int|
                0 <= j < i ==> !(is_running_v4(#[trigger] entries@[j]) && entries@[j].interface
                    == interface),
        decreases entries@.len() - i,
    {
        let entry = entries[i];
        if entry.is_running && entry.interface == interface && matches!(entry.addr, IpAddr::V4(_)) {
            return true;
        }
        i = i + 1;
    }
    false
}

/// Picks the addresses that discovery can use from those that the system lists.
pub fn scan_network_interfaces(entries: &Vec<InterfaceAddress>) -> (addrs: Vec<IpAddr>)
    ensures
        addrs@ == usable(entries@),
{
    let ghost is_v4 = |e: InterfaceAddress| is_running_v4(e);
    let ghost is_v6 = |e: InterfaceAddress| is_usable_v6(entries@, e);
    let ghost addr_of = |e: InterfaceAddress| e.addr;
    let mut addrs: Vec<IpAddr> = Vec::new();
    let mut i: usize = 0;
    proof {
        reveal(Seq::filter);
    }
    while i < entries.len()
        invariant
            i <= entries@.len(),
            is_v4 == (|e: InterfaceAddress| is_running_v4(e)),
            addr_of == (|e: InterfaceAddress| e.addr),
            addrs@ == entries@.take(i as int).filter(is_v4).map_values(addr_of),
        decreases entries@.len() - i,
    {
        proof {
            lemma_filter_step(entries@, i as int, is_v4);
        }
        if entries[i].is_running && matches!(entries[i].addr, IpAddr::V4(_)) {
            addrs.push(entries[i].addr);
        }
        i = i + 1;
    }
    assert(entries@.take(i as int) =~= entries@);
    let ghost v4 = addrs@;
    let mut k: usize = 0;
    assert(addrs@ =~= v4 + entries@.take(0).filter(is_v6).map_values(addr_of));
    while k < entries.len()
        invariant
            k <= entries@.len(),
            is_v6 == (|e: InterfaceAddress| is_usable_v6(entries@, e)),
            addr_of == (|e: InterfaceAddress| e.addr),
            addrs@ == v4 + entries@.take(k as int).filter(is_v6).map_values(addr_of),
        decreases entries@.len() - k,
    {
        proof {
            lemma_filter_step(entries@, k as int, is_v6);
        }
        if entries[k].is_running && matches!(entries[k].addr, IpAddr::V6(_)) && runs_with_v4(
            entries,
            entries[k].interface,
        ) {
            addrs.push(entries[k].addr);
        }
        k = k + 1;
    }
    assert(entries@.take(k as int) =~= entries@);
    addrs
}

/// Only addresses of interfaces that run and have an IPv4 address are used, and each IPv4
/// address of such an interface is.
pub proof fn law_used_interfaces_run_and_have_v4(entries: Seq<InterfaceAddress>)
    ensures
        forall|k: int|
            0 <= k < usable(entries).len() ==> exists|i: int|
                0 <= i < entries.len() && (#[trigger] entries[i]).addr == #[trigger] usable(
                    entries,
                )[k] && entries[i].is_running && has_v4(entries, entries[i].interface),
        forall|i: int|
            0 <= i < entries.len() && is_running_v4(#[trigger] entries[i]) ==> usable(
                entries,
            ).contains(entries[i].addr),
{
    let is_v4 = |e: InterfaceAddress| is_running_v4(e);
    let is_v6 = |e: InterfaceAddress| is_usable_v6(entries, e);
    let v4 = entries.filter(is_v4);
    let v6 = entries.filter(is_v6);
    lemma_filter_members(entries, is_v4);
    lemma_filter_members(entries, is_v6);
    assert(usable(entries).len() == v4.len() + v6.len());
    assert forall|k: int| 0 <= k < usable(entries).len() implies exists|i: int|
        0 <= i < entries.len() && (#[trigger] entries[i]).addr == #[trigger] usable(entries)[k]
            && entries[i].is_running && has_v4(entries, entries[i].interface) by {
        let e = if k < v4.len() {
            v4[k]
        } else {
            v6[k - v4.len()]
        };
        assert(usable(entries)[k] == e.addr);
        assert(entries.contains(e));
        let i = choose|i: int| 0 <= i < entries.len() && entries[i] == e;
        if k < v4.len() {
            assert(is_v4(v4[k]));
        } else {
            assert(is_v6(v6[k - v4.len()]));
        }
        assert(entries[i].addr == usable(entries)[k]);
        assert(has_v4(entries, entries[i].interface));
    }
    assert forall|i: int| 0 <= i < entries.len() && is_running_v4(
        #[trigger] entries[i],
    ) implies usable(entries).contains(entries[i].addr) by {
        assert(is_v4(entries[i]));
        assert(v4.contains(entries[i]));
        let k = choose|k: int| 0 <= k < v4.len() && v4[k] == entries[i];
        assert(usable(entries)[k] == entries[i].addr);
    }
}

/// The usable addresses are those of IPv4, then those of IPv6.
pub proof fn law_v4_comes_before_v6(entries: Seq<InterfaceAddress>, k: int)
    ensures
        usable(entries).len() == running_v4(entries).len() + usable_v6(entries, entries).len(),
        0 <= k < running_v4(entries).len() ==> usable(entries)[k] == running_v4(entries)[k]
            && usable(entries)[k] is V4,
        running_v4(entries).len() <= k < usable(entries).len() ==> usable(entries)[k] == usable_v6(
            entries,
            entries,
        )[k - running_v4(entries).len()] && usable(entries)[k] is V6,
{
    let is_v4 = |e: InterfaceAddress| is_running_v4(e);
    let is_v6 = |e: InterfaceAddress| is_usable_v6(entries, e);
    lemma_filter_members(entries, is_v4);
    lemma_filter_members(entries, is_v6);
    if 0 <= k < running_v4(entries).len() {
        assert(is_v4(entries.filter(is_v4)[k]));
    }
    if running_v4(entries).len() <= k < usable(entries).len() {
        assert(is_v6(entries.filter(is_v6)[k - running_v4(entries).len()]));
    }
}

/// One more entry gives one more IPv4 address, at the end, exactly if it is one and runs.
pub proof fn law_v4_addresses_are_taken_one_by_one(
    entries: Seq<InterfaceAddress>,
    last: InterfaceAddress,
)
    ensures
        last.is_running && last.addr is V4 ==> running_v4(entries.push(last)) == running_v4(
            entries,
        ).push(last.addr),
        !(last.is_running && last.addr is V4) ==> running_v4(entries.push(last)) == running_v4(
            entries,
        ),
        running_v4(Seq::empty()).len() == 0,
{
    let is_v4 = |e: InterfaceAddress| is_running_v4(e);
    lemma_filter_push(entries, last, is_v4);
    reveal(Seq::filter);
}

/// One more entry gives one more IPv6 address, at the end, exactly if it is one, runs, and an
/// IPv4 address of the same interface, which runs, is among all entries.
pub proof fn law_v6_addresses_are_taken_one_by_one(
    all: Seq<InterfaceAddress>,
    entries: Seq<InterfaceAddress>,
    last: InterfaceAddress,
)
    ensures
        ({
            let has_partner = exists|i: int|
                0 <= i < all.len() && (#[trigger] all[i]).interface == last.interface
                    && all[i].is_running && all[i].addr is V4;
            if last.is_running && last.addr is V6 && has_partner {
                usable_v6(all, entries.push(last)) == usable_v6(all, entries).push(last.addr)
            } else {
                usable_v6(all, entries.push(last)) == usable_v6(all, entries)
            }
        }),
        usable_v6(all, Seq::empty()).len() == 0,
{
    let is_v6 = |e: InterfaceAddress| is_usable_v6(all, e);
    lemma_filter_push(entries, last, is_v6);
    reveal(Seq::filter);
    if exists|i: int|
        0 <= i < all.len() && (#[trigger] all[i]).interface == last.interface && all[i].is_running
            && all[i].addr is V4 {
        let i = choose|i: int|
            0 <= i < all.len() && (#[trigger] all[i]).interface == last.interface
                && all[i].is_running && all[i].addr is V4;
        assert(is_running_v4(all[i]));
    }
}

} // verus!
