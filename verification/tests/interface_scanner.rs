use ableton_link::discovery::interface_scanner::{
    get_ipv6_scope_id, same_interfaces, InterfaceScanner,
};
use ableton_link::platform::network::{
    scan_network_interfaces, InterfaceAddress, IpAddr, Ipv6Addr,
};

fn v6(last: u16) -> IpAddr {
    IpAddr::V6(Ipv6Addr::new(0xfe80, 0, 0, 0, 0, 0, 0, last))
}

fn entry(interface: u32, is_running: bool, addr: IpAddr) -> InterfaceAddress {
    InterfaceAddress { interface, is_running, addr }
}

#[test]
fn test_ipv6_scope_id() {
    let link_local = Ipv6Addr::new(0xfe80, 0, 0, 0, 0, 0, 0, 1);
    assert!(get_ipv6_scope_id(&link_local).is_some());

    let global = Ipv6Addr::new(0x2001, 0xdb8, 0, 0, 0, 0, 0, 1);
    assert!(get_ipv6_scope_id(&global).is_none());
}

#[test]
fn scope_follows_the_first_ten_bits() {
    let of = |first| get_ipv6_scope_id(&Ipv6Addr::new(first, 0, 0, 0, 0, 0, 0, 1));
    assert_eq!(of(0xfe7f), None);
    assert_eq!(of(0xfe80), Some(0));
    assert_eq!(of(0xfebf), Some(0));
    assert_eq!(of(0xfec0), None);
}

#[test]
fn interfaces_are_compared_as_sets() {
    let a = vec![IpAddr::V4(1), v6(2), IpAddr::V4(1)];
    let b = vec![v6(2), IpAddr::V4(1)];
    assert!(same_interfaces(&a, &b));
    assert!(!same_interfaces(&a, &vec![IpAddr::V4(1)]));
    assert!(!same_interfaces(&vec![], &b));
    assert!(same_interfaces(&vec![], &vec![]));
}

#[test]
fn scanner_tells_changes_only() {
    let mut scanner = InterfaceScanner::new(50);
    assert!(!scanner.is_due(7));
    scanner.enable(true, 7);
    assert!(scanner.is_due(7));
    assert!(!scanner.is_due(6));
    assert!(scanner.on_scan(&vec![], 10));
    assert_eq!(scanner.next_scan, 60);
    assert!(!scanner.is_due(59));
    assert!(!scanner.on_scan(&vec![], 60));
    assert!(scanner.on_scan(&vec![IpAddr::V4(1), v6(2)], 70));
    assert!(!scanner.on_scan(&vec![v6(2), IpAddr::V4(1)], 80));
    assert!(scanner.on_scan(&vec![IpAddr::V4(1)], 90));
    assert_eq!(scanner.last_interfaces, Some(vec![IpAddr::V4(1)]));
}

#[test]
fn scanner_can_be_disabled_and_enabled_again() {
    let mut scanner = InterfaceScanner::new(50);
    scanner.enable(true, 0);
    assert!(scanner.on_scan(&vec![IpAddr::V4(1)], 0));
    scanner.enable(false, 60);
    assert!(!scanner.is_due(1_000));
    scanner.enable(true, 2_000);
    assert!(!scanner.is_due(1_999));
    assert!(scanner.is_due(2_000));
    assert!(scanner.on_scan(&vec![IpAddr::V4(1)], 2_000));
}

#[test]
fn usable_addresses_are_v4_then_v6_of_the_same_interfaces() {
    let entries = vec![
        entry(1, true, v6(1)),
        entry(1, true, IpAddr::V4(1)),
        entry(2, true, v6(2)),
        entry(3, false, IpAddr::V4(3)),
        entry(3, false, v6(3)),
        entry(4, true, IpAddr::V4(4)),
        entry(4, false, v6(4)),
    ];
    assert_eq!(
        scan_network_interfaces(&entries),
        vec![IpAddr::V4(1), IpAddr::V4(4), v6(1)]
    );
    assert!(scan_network_interfaces(&vec![]).is_empty());
}
