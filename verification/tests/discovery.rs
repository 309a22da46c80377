use vpnparty::discovery::{
    default_multicast_ip, greeting, greeting_reply, is_greeting, logs_receive_error, on_datagram,
    sweep_targets, MULTICAST_PORT, UDPING_PORT,
};
use vpnparty::net::{HostAddr, Ipv4};
use vpnparty::relay::{DiscoveryEvent, DiscoveryKind};

const OWN: Ipv4 = Ipv4 { a: 10, b: 0, c: 1, d: 2 };
const PEER: Ipv4 = Ipv4 { a: 10, b: 0, c: 1, d: 5 };

#[test]
fn markers() {
    assert_eq!(greeting(), [0x00, 0x01, 0x53, 0x75, 0x70, 0x21]);
    assert_eq!(greeting_reply(), [0x01, 0x53, 0x75, 0x70, 0x2c, 0x20, 0x62, 0x72, 0x6f, 0x21]);
    assert!(is_greeting(&greeting()));
    assert!(!is_greeting(&greeting_reply()));
    assert!(!is_greeting(&[0x00, 0x01, 0x53, 0x75, 0x70]));
    assert!(!is_greeting(&[0x00, 0x01, 0x53, 0x75, 0x70, 0x21, 0x00]));
    assert!(!is_greeting(&[0x00, 0x01, 0x53, 0x75, 0x70, 0x22]));
    assert!(!is_greeting(&[]));
}

#[test]
fn defaults() {
    assert_eq!(default_multicast_ip(), Ipv4::new(239, 1, 2, 3));
    assert!(default_multicast_ip().is_multicast());
    assert_eq!(MULTICAST_PORT, 54929);
    assert_eq!(UDPING_PORT, 54928);
}

#[test]
fn greeting_from_a_peer_is_answered_and_reported() {
    let r = on_datagram(DiscoveryKind::Multicast, 1, OWN, HostAddr::V4(PEER), &greeting());
    assert_eq!(r.reply, Some(greeting_reply()));
    assert_eq!(
        r.event,
        Some(DiscoveryEvent { kind: DiscoveryKind::Multicast, direction: 1, ip: PEER })
    );
    let again = on_datagram(DiscoveryKind::Multicast, 1, OWN, HostAddr::V4(PEER), &greeting());
    assert_eq!(again.reply, Some(greeting_reply()));
    assert!(again.event.is_some());
}

#[test]
fn own_echo_is_ignored() {
    let r = on_datagram(DiscoveryKind::Sweep, 0, OWN, HostAddr::V4(OWN), &greeting());
    assert_eq!(r.reply, None);
    assert_eq!(r.event, None);
}

#[test]
fn other_datagram_is_reported_without_reply() {
    let r = on_datagram(DiscoveryKind::Sweep, 3, OWN, HostAddr::V4(PEER), &greeting_reply());
    assert_eq!(r.reply, None);
    assert_eq!(r.event, Some(DiscoveryEvent { kind: DiscoveryKind::Sweep, direction: 3, ip: PEER }));
}

#[test]
fn ipv6_sender_is_answered_but_not_reported() {
    let r = on_datagram(DiscoveryKind::Multicast, 0, OWN, HostAddr::V6, &greeting());
    assert_eq!(r.reply, Some(greeting_reply()));
    assert_eq!(r.event, None);
    let quiet = on_datagram(DiscoveryKind::Multicast, 0, OWN, HostAddr::V6, &[1, 2, 3]);
    assert_eq!(quiet.reply, None);
    assert_eq!(quiet.event, None);
}

#[test]
fn connection_reset_is_silent_only_in_a_sweep() {
    assert!(!logs_receive_error(DiscoveryKind::Sweep, true));
    assert!(logs_receive_error(DiscoveryKind::Sweep, false));
    assert!(logs_receive_error(DiscoveryKind::Multicast, true));
    assert!(logs_receive_error(DiscoveryKind::Multicast, false));
}

#[test]
fn sweep_skips_the_own_host() {
    let targets = sweep_targets(OWN);
    assert_eq!(targets.len(), 254);
    assert_eq!(targets[0], Ipv4::new(10, 0, 1, 0));
    assert_eq!(targets[1], Ipv4::new(10, 0, 1, 1));
    assert_eq!(targets[2], Ipv4::new(10, 0, 1, 3));
    assert_eq!(targets[253], Ipv4::new(10, 0, 1, 254));
    assert!(!targets.contains(&OWN));
    assert!(!targets.contains(&Ipv4::new(10, 0, 1, 255)));
}

#[test]
fn sweep_from_the_last_host_covers_all_others() {
    let targets = sweep_targets(Ipv4::new(10, 0, 1, 255));
    assert_eq!(targets.len(), 255);
    assert_eq!(targets[0], Ipv4::new(10, 0, 1, 0));
    assert_eq!(targets[254], Ipv4::new(10, 0, 1, 254));
}

#[test]
fn sweep_from_host_zero() {
    let targets = sweep_targets(Ipv4::new(10, 0, 1, 0));
    assert_eq!(targets.len(), 254);
    assert_eq!(targets[0], Ipv4::new(10, 0, 1, 1));
    assert_eq!(targets[253], Ipv4::new(10, 0, 1, 254));
}
