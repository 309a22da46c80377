use vpnparty::directions::{
    contains_ip, is_served, open_dst_devices, peers_in_subnet, unmatched_peers, ConfigError,
    Direction, ParsedDevices,
};
use vpnparty::net::{HostAddr, Ipv4};

fn ip(a: u8, b: u8, c: u8, d: u8) -> Ipv4 {
    Ipv4::new(a, b, c, d)
}

fn two_tunnels() -> ParsedDevices {
    ParsedDevices {
        src: HostAddr::V4(ip(192, 168, 0, 10)),
        dst: vec![HostAddr::V4(ip(10, 0, 1, 2)), HostAddr::V4(ip(10, 0, 2, 2))],
    }
}

#[test]
fn insert_twice_grows_by_one() {
    let mut d = Direction::new(ip(10, 0, 1, 2));
    assert_eq!(d.len(), 0);
    assert!(d.insert(ip(10, 0, 1, 5)));
    assert_eq!(d.len(), 1);
    assert!(!d.insert(ip(10, 0, 1, 5)));
    assert_eq!(d.len(), 1);
    assert!(d.contains(ip(10, 0, 1, 5)));
    assert!(!d.contains(ip(10, 0, 1, 6)));
    assert!(d.insert(ip(10, 0, 1, 6)));
    assert_eq!(d.buddies(), &vec![ip(10, 0, 1, 5), ip(10, 0, 1, 6)]);
    assert_eq!(d.vpnip(), ip(10, 0, 1, 2));
}

#[test]
fn with_peers_holds_each_address_once() {
    let list = [ip(10, 0, 1, 5), ip(10, 0, 1, 6), ip(10, 0, 1, 5)];
    let d = Direction::with_peers(ip(10, 0, 1, 2), &list);
    assert_eq!(d.len(), 2);
    assert!(d.contains(ip(10, 0, 1, 5)));
    assert!(d.contains(ip(10, 0, 1, 6)));
}

#[test]
fn peers_are_assigned_by_subnet() {
    let peers = [ip(10, 0, 1, 5), ip(10, 0, 2, 9)];
    let dirs = open_dst_devices(two_tunnels(), &peers).unwrap();
    assert_eq!(dirs.len(), 2);
    assert_eq!(dirs[0].vpnip(), ip(10, 0, 1, 2));
    assert_eq!(dirs[0].buddies(), &vec![ip(10, 0, 1, 5)]);
    assert_eq!(dirs[1].vpnip(), ip(10, 0, 2, 2));
    assert_eq!(dirs[1].buddies(), &vec![ip(10, 0, 2, 9)]);
}

#[test]
fn no_peers_gives_empty_directions() {
    let dirs = open_dst_devices(two_tunnels(), &[]).unwrap();
    assert_eq!(dirs.len(), 2);
    assert_eq!(dirs[0].len(), 0);
    assert_eq!(dirs[1].len(), 0);
}

#[test]
fn repeated_peer_is_held_once() {
    let peers = [ip(10, 0, 1, 5), ip(10, 0, 1, 5), ip(10, 0, 1, 7)];
    let dirs = open_dst_devices(two_tunnels(), &peers).unwrap();
    assert_eq!(dirs[0].len(), 2);
    assert_eq!(dirs[1].len(), 0);
}

#[test]
fn unmatched_peer_is_refused() {
    let peers = [ip(10, 0, 1, 5), ip(10, 0, 3, 7), ip(10, 0, 2, 9)];
    match open_dst_devices(two_tunnels(), &peers) {
        Err(ConfigError::UnmatchedPeers(list)) => assert_eq!(list, vec![ip(10, 0, 3, 7)]),
        other => panic!("unexpected {:?}", other),
    }
}

#[test]
fn only_unmatched_peer_is_refused() {
    match open_dst_devices(two_tunnels(), &[ip(10, 0, 3, 7)]) {
        Err(ConfigError::UnmatchedPeers(list)) => assert_eq!(list, vec![ip(10, 0, 3, 7)]),
        other => panic!("unexpected {:?}", other),
    }
}

#[test]
fn tunnel_own_address_is_refused() {
    let peers = [ip(10, 0, 1, 5), ip(10, 0, 2, 2)];
    match open_dst_devices(two_tunnels(), &peers) {
        Err(ConfigError::OwnAddress(own)) => assert_eq!(own, ip(10, 0, 2, 2)),
        other => panic!("unexpected {:?}", other),
    }
    match open_dst_devices(two_tunnels(), &[ip(10, 0, 1, 2)]) {
        Err(ConfigError::OwnAddress(own)) => assert_eq!(own, ip(10, 0, 1, 2)),
        other => panic!("unexpected {:?}", other),
    }
}

#[test]
fn own_address_comes_before_unmatched() {
    let peers = [ip(10, 0, 3, 7), ip(10, 0, 1, 2)];
    assert!(matches!(
        open_dst_devices(two_tunnels(), &peers),
        Err(ConfigError::OwnAddress(_))
    ));
}

#[test]
fn capture_source_address_is_refused() {
    let peers = [ip(10, 0, 1, 5), ip(192, 168, 0, 10)];
    match open_dst_devices(two_tunnels(), &peers) {
        Err(ConfigError::OwnAddress(own)) => assert_eq!(own, ip(192, 168, 0, 10)),
        other => panic!("unexpected {:?}", other),
    }
}

#[test]
fn ipv6_capture_source_is_accepted() {
    let devices = ParsedDevices { src: HostAddr::V6, dst: vec![HostAddr::V4(ip(10, 0, 1, 2))] };
    let dirs = open_dst_devices(devices, &[ip(10, 0, 1, 5)]).unwrap();
    assert_eq!(dirs.len(), 1);
    assert_eq!(dirs[0].buddies(), &vec![ip(10, 0, 1, 5)]);
}

#[test]
fn ipv6_tunnel_is_refused() {
    let devices = ParsedDevices {
        src: HostAddr::V4(ip(192, 168, 0, 10)),
        dst: vec![HostAddr::V4(ip(10, 0, 1, 2)), HostAddr::V6],
    };
    assert!(matches!(
        open_dst_devices(devices, &[ip(10, 0, 1, 5)]),
        Err(ConfigError::Ipv6Tunnel)
    ));
}

#[test]
fn peer_of_two_tunnels_is_refused() {
    let devices = ParsedDevices {
        src: HostAddr::V4(ip(192, 168, 0, 10)),
        dst: vec![HostAddr::V4(ip(10, 0, 1, 2)), HostAddr::V4(ip(10, 0, 1, 3))],
    };
    match open_dst_devices(devices, &[ip(10, 0, 1, 5)]) {
        Err(ConfigError::AmbiguousPeer(peer)) => assert_eq!(peer, ip(10, 0, 1, 5)),
        other => panic!("unexpected {:?}", other),
    }
}

#[test]
fn tunnels_in_one_subnet_without_peers_are_accepted() {
    let devices = ParsedDevices {
        src: HostAddr::V4(ip(192, 168, 0, 10)),
        dst: vec![HostAddr::V4(ip(10, 0, 1, 2)), HostAddr::V4(ip(10, 0, 1, 3))],
    };
    let dirs = open_dst_devices(devices, &[]).unwrap();
    assert_eq!(dirs.len(), 2);
}

#[test]
fn no_tunnel_and_no_peer_is_accepted() {
    let devices = ParsedDevices { src: HostAddr::V4(ip(192, 168, 0, 10)), dst: vec![] };
    assert_eq!(open_dst_devices(devices, &[]).unwrap().len(), 0);
}

#[test]
fn list_helpers() {
    let list = [ip(10, 0, 1, 5), ip(10, 0, 3, 7), ip(10, 0, 1, 9)];
    assert!(contains_ip(&list, ip(10, 0, 3, 7)));
    assert!(!contains_ip(&list, ip(10, 0, 3, 8)));
    assert_eq!(
        peers_in_subnet(&list, ip(10, 0, 1, 2)),
        vec![ip(10, 0, 1, 5), ip(10, 0, 1, 9)]
    );
    let tunnels = [HostAddr::V6, HostAddr::V4(ip(10, 0, 1, 2))];
    assert!(is_served(&tunnels, ip(10, 0, 1, 5)));
    assert!(!is_served(&tunnels, ip(10, 0, 3, 7)));
    assert_eq!(unmatched_peers(&tunnels, &list), vec![ip(10, 0, 3, 7)]);
}
