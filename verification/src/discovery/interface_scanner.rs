//! Watching the network interfaces for changes.

use vstd::prelude::*;

use crate::platform::network::{IpAddr, Ipv6Addr};

verus! {

/// Milliseconds between two looks at the clock.
pub const POLL_MILLIS: u64 = 100;

/// Scans the network interfaces once per period, and tells when they have changed. Times are
/// in nanoseconds of a clock that does not go back.
#[derive(Debug)]
pub struct InterfaceScanner {
    pub is_enabled: bool,
    pub scan_period: u64,
    pub next_scan: u64,
    pub last_interfaces: Option<Vec<IpAddr>>,
}

/// Whether the first list of addresses has all of the second.
fn has_all(list: &Vec<IpAddr>, addrs: &Vec<IpAddr>) -> (r: bool)
    ensures
        r == addrs@.to_set().subset_of(list@.to_set()),
{
    let mut i: usize = 0;
    while i < addrs.len()
        invariant
            i <= addrs@.len(),
            forall|j: int| 0 <= j < i ==> list@.contains(#[trigger] addrs@[j]),
        decreases addrs@.len() - i,
    {
        let mut found = false;
        let mut k: usize = 0;
        while k < list.len() && !found
            invariant
                i < addrs@.len(),
                k <= list@.len(),
                found ==> list@.contains(addrs@[i as int]),
                !found ==> forall|j: int| 0 <= j < k ==> #[trigger] list@[j] != addrs@[i as int],
            decreases list@.len() - k,
        {
            if list[k] == addrs[i] {
                found = true;
                assert(list@[k as int] == addrs@[i as int]);
            }
            k = k + 1;
        }
        if !found {
            assert(addrs@.to_set().contains(addrs@[i as int]));
            return false;
        }
        i = i + 1;
    }
    true
}

/// Whether a scan that found `interfaces` is news after one that found `last`.
pub open spec fn has_news(last: Option<Seq<IpAddr>>, interfaces: Seq<IpAddr>) -> bool {
    match last {
        Some(last) => last.to_set() != interfaces.to_set(),
        None => true,
    }
}

/// Whether two lists have the same addresses, in whatever order and however often.
pub fn same_interfaces(a: &Vec<IpAddr>, b: &Vec<IpAddr>) -> (r: bool)
    ensures
        r == (a@.to_set() == b@.to_set()),
{
    let r = has_all(a, b) && has_all(b, a);
    proof {
        if r {
            assert(a@.to_set() =~= b@.to_set());
        }
    }
    r
}

/// Whether a scanner that is to scan from `next_scan` on scans at `now`.
pub open spec fn is_time(is_enabled: bool, next_scan: u64, now: u64) -> bool {
    is_enabled && now >= next_scan
}

/// When the next scan is due after one that ended at `now`.
pub open spec fn next_after_scan(now: u64, scan_period: u64) -> int {
    now + scan_period
}

/// When the next scan is due after the scanner was enabled or disabled at `now`.
pub open spec fn next_after_enabling(enable: bool, next_scan: u64, now: u64) -> u64 {
    if enable {
        now
    } else {
        next_scan
    }
}

impl InterfaceScanner {
    /// The addresses of the last scan with news.
    pub open spec fn last_found(self) -> Option<Seq<IpAddr>> {
        match self.last_interfaces {
            Some(last) => Some(last@),
            None => None,
        }
    }

    /// A scanner that is not enabled and has not scanned yet.
    pub fn new(scan_period: u64) -> (scanner: InterfaceScanner)
        ensures
            !scanner.is_enabled,
            scanner.scan_period == scan_period,
            scanner.next_scan == 0,
            scanner.last_interfaces is None,
    {
        InterfaceScanner { is_enabled: false, scan_period, next_scan: 0, last_interfaces: None }
    }

    /// Enables or disables the scanner. One that is enabled starts afresh and is due at once.
    pub fn enable(&mut self, enable: bool, now: u64)
        ensures
            final(self).is_enabled == enable,
            final(self).scan_period == old(self).scan_period,
            final(self).next_scan == next_after_enabling(enable, old(self).next_scan, now),
            final(self).last_interfaces == if enable {
                None
            } else {
                old(self).last_interfaces
            },
    {
        self.is_enabled = enable;
        if enable {
            self.next_scan = now;
            self.last_interfaces = None;
        }
    }

    /// Whether it is time to scan.
    pub fn is_due(&self, now: u64) -> (r: bool)
        ensures
            r == is_time(self.is_enabled, self.next_scan, now),
    {
        self.is_enabled && now >= self.next_scan
    }

    /// Takes the result of a scan that ended at `now`. Returns whether there is news: whether it
    /// is the first scan or has other addresses than the last one with news.
    pub fn on_scan(&mut self, interfaces: &Vec<IpAddr>, now: u64) -> (is_news: bool)
        requires
            now + old(self).scan_period <= u64::MAX,
        ensures
            final(self).is_enabled == old(self).is_enabled,
            final(self).scan_period == old(self).scan_period,
            final(self).next_scan == next_after_scan(now, old(self).scan_period),
            is_news == has_news(old(self).last_found(), interfaces@),
            if is_news {
                final(self).last_interfaces matches Some(last) && last@ == interfaces@
            } else {
                final(self).last_interfaces == old(self).last_interfaces
            },
    {
        let is_news = match &self.last_interfaces {
            Some(last) => !same_interfaces(last, interfaces),
            None => true,
        };
        if is_news {
            let mut copy: Vec<IpAddr> = Vec::new();
            let mut i: usize = 0;
            while i < interfaces.len()
                invariant
                    i <= interfaces@.len(),
                    copy@ == interfaces@.take(i as int),
                decreases interfaces@.len() - i,
            {
                copy.push(interfaces[i]);
                i = i + 1;
            }
            assert(copy@ =~= interfaces@);
            self.last_interfaces = Some(copy);
        }
        self.next_scan = now + self.scan_period;
        is_news
    }
}

/// Whether an address is link-local: its first ten bits are those of `fe80`.
pub open spec fn is_unicast_link_local(addr: Ipv6Addr) -> bool {
    0xfe80 <= addr.a <= 0xfebf
}

/// The scope of an IPv6 address. Link-local addresses have the default scope, others have none.
pub fn get_ipv6_scope_id(addr: &Ipv6Addr) -> (scope: Option<u32>)
    ensures
        scope == if is_unicast_link_local(*addr) {
            Some(0u32)
        } else {
            None
        },
{
    if addr.a & 0xffc0 == 0xfe80 {
        proof {
            let first = addr.a;
            assert(first & 0xffc0 == 0xfe80u16 ==> 0xfe80 <= first <= 0xfebf) by (bit_vector);
        }
        Some(0)
    } else {
        proof {
            let first = addr.a;
            assert(0xfe80 <= first <= 0xfebf ==> first & 0xffc0 == 0xfe80u16) by (bit_vector);
        }
        None
    }
}

/// The first scan is news. Later ones are exactly where there is an address that the last scan
/// with news found and this one did not, or the other way round: order and repetition are none.
pub proof fn law_news_is_an_address_more_or_less(last: Seq<IpAddr>, interfaces: Seq<IpAddr>)
    ensures
        has_news(None, interfaces),
        has_news(Some(last), interfaces) <==> exists|address: IpAddr|
            #![trigger last.contains(address)]
            last.contains(address) != interfaces.contains(address),
{
    if has_news(Some(last), interfaces) {
        if forall|address: IpAddr|
            #![trigger last.contains(address)]
            last.contains(address) == interfaces.contains(address) {
            assert forall|address: IpAddr| last.to_set().contains(address)
                == interfaces.to_set().contains(address) by {
                assert(last.contains(address) == interfaces.contains(address));
            }
            assert(last.to_set() =~= interfaces.to_set());
        }
    } else {
        assert forall|address: IpAddr|
            #![trigger last.contains(address)]
            last.contains(address) == interfaces.contains(address) by {
            assert(last.to_set().contains(address) == interfaces.to_set().contains(address));
        }
    }
}

/// A scanner scans when it is enabled, and then again when a period is over since the last scan
/// and not before.
pub proof fn law_scans_are_one_period_apart(
    next_scan: u64,
    scan_period: u64,
    now: u64,
    later: u64,
)
    requires
        now + scan_period <= u64::MAX,
    ensures
        is_time(true, next_after_enabling(true, next_scan, now), now),
        next_after_enabling(false, next_scan, now) == next_scan,
        later - now < scan_period ==> !is_time(
            true,
            next_after_scan(now, scan_period) as u64,
            later,
        ),
        later - now >= scan_period ==> is_time(
            true,
            next_after_scan(now, scan_period) as u64,
            later,
        ),
{
}

/// An enabled scanner scans from its time on and not before, a disabled one never.
pub proof fn law_scans_come_in_time(next_scan: u64, now: u64)
    ensures
        now >= next_scan ==> is_time(true, next_scan, now),
        now < next_scan ==> !is_time(true, next_scan, now),
        !is_time(false, next_scan, now),
{
}

/// An address is link-local exactly if its first ten bits are those of `fe80`.
pub proof fn law_link_local_is_told_by_ten_bits(addr: Ipv6Addr)
    ensures
        is_unicast_link_local(addr) <==> addr.a / 64 == 0xfe80u16 / 64,
{
}

} // verus!
