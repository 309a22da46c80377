//! The discovery handshake: what a discovery listener does with a datagram,
//! and which hosts a subnet sweep probes.

use crate::net::{HostAddr, Ipv4};
use crate::relay::{DiscoveryEvent, DiscoveryKind};
use vstd::prelude::*;

verus! {

/// Port of the multicast group unless configured otherwise.
pub const MULTICAST_PORT: u16 = 54929;

/// Port of the subnet sweep unless configured otherwise.
pub const UDPING_PORT: u16 = 54928;

/// The greeting marker: six bytes.
pub open spec fn greeting_spec() -> Seq<u8> {
    seq![0x00u8, 0x01u8, 0x53u8, 0x75u8, 0x70u8, 0x21u8]
}

/// The acknowledgement of a greeting: ten bytes.
pub open spec fn greeting_reply_spec() -> Seq<u8> {
    seq![0x01u8, 0x53u8, 0x75u8, 0x70u8, 0x2cu8, 0x20u8, 0x62u8, 0x72u8, 0x6fu8, 0x21u8]
}

/// The greeting marker that a listener sends on start.
pub fn greeting() -> (bytes: [u8; 6])
    ensures
        bytes@ == greeting_spec(),
{
    let bytes: [u8; 6] = [0x00, 0x01, 0x53, 0x75, 0x70, 0x21];
    assert(bytes@ =~= greeting_spec());
    bytes
}

/// The acknowledgement that answers a greeting.
pub fn greeting_reply() -> (bytes: [u8; 10])
    ensures
        bytes@ == greeting_reply_spec(),
{
    let bytes: [u8; 10] = [0x01, 0x53, 0x75, 0x70, 0x2c, 0x20, 0x62, 0x72, 0x6f, 0x21];
    assert(bytes@ =~= greeting_reply_spec());
    bytes
}

/// The multicast group unless configured otherwise: 239.1.2.3.
pub fn default_multicast_ip() -> (ip: Ipv4)
    ensures
        ip == (Ipv4 { a: 239, b: 1, c: 2, d: 3 }),
        ip.is_multicast_spec(),
{
    Ipv4::new(239, 1, 2, 3)
}

/// What a listener does with one datagram.
#[derive(Debug)]
pub struct Reaction {
    /// The acknowledgement to send back to the sender, if any.
    pub reply: Option<[u8; 10]>,
    /// The sighting to hand to the relay core, if any.
    pub event: Option<DiscoveryEvent>,
}

/// Whether a datagram is answered: it is a greeting and does not come from
/// the tunnel's own address.
pub open spec fn is_answered(own: Ipv4, sender: HostAddr, payload: Seq<u8>) -> bool {
    sender != HostAddr::V4(own) && payload == greeting_spec()
}

/// The peer that a datagram reveals: its sender, where that is an IPv4
/// address other than the tunnel's own. What the datagram holds plays no
/// part.
pub open spec fn revealed_peer(own: Ipv4, sender: HostAddr) -> Option<Ipv4> {
    match sender {
        HostAddr::V4(ip) => if ip == own {
            None
        } else {
            Some(ip)
        },
        HostAddr::V6 => None,
    }
}

/// Whether `payload` is the greeting marker.
pub fn is_greeting(payload: &[u8]) -> (same: bool)
    ensures
        same == (payload@ == greeting_spec()),
{
    let marker: [u8; 6] = greeting();
    if payload.len() != 6 {
        return false;
    }
    let mut i: usize = 0;
    while i < 6
        invariant
            i <= 6,
            payload@.len() == 6,
            marker@ == greeting_spec(),
            forall|k: int| 0 <= k < i ==> payload@[k] == marker@[k],
        decreases 6 - i,
    {
        if payload[i] != marker[i] {
            return false;
        }
        i = i + 1;
    }
    assert(payload@ =~= greeting_spec());
    true
}

/// Decides what the listener of direction `direction` does with a datagram
/// from `sender`: a datagram from the tunnel's own address is ignored; a
/// greeting from anyone else gets one acknowledgement; any datagram from
/// another IPv4 host is reported as a sighting of that host.
pub fn on_datagram(
    kind: DiscoveryKind,
    direction: usize,
    own: Ipv4,
    sender: HostAddr,
    payload: &[u8],
) -> (r: Reaction)
    ensures
        r.reply is Some <==> is_answered(own, sender, payload@),
        r.reply is Some ==> r.reply->Some_0@ == greeting_reply_spec(),
        r.event is Some <==> revealed_peer(own, sender) is Some,
        r.event is Some ==> r.event->Some_0 == (DiscoveryEvent {
            kind,
            direction,
            ip: revealed_peer(own, sender)->Some_0,
        }),
{
    match sender {
        HostAddr::V4(ip) => {
            if ip == own {
                Reaction { reply: None, event: None }
            } else {
                let reply: Option<[u8; 10]> = if is_greeting(payload) {
                    Some(greeting_reply())
                } else {
                    None
                };
                Reaction { reply, event: Some(DiscoveryEvent { kind, direction, ip }) }
            }
        },
        HostAddr::V6 => {
            let reply: Option<[u8; 10]> = if is_greeting(payload) {
                Some(greeting_reply())
            } else {
                None
            };
            Reaction { reply, event: None }
        },
    }
}

/// A greeting from another IPv4 host is answered once and reported once; a
/// datagram from the tunnel's own address is neither answered nor reported.
pub proof fn lemma_greeting_handshake(own: Ipv4, sender: Ipv4, payload: Seq<u8>)
    ensures
        sender != own && payload == greeting_spec() ==> is_answered(
            own,
            HostAddr::V4(sender),
            payload,
        ) && revealed_peer(own, HostAddr::V4(sender)) == Some(sender),
        !is_answered(own, HostAddr::V4(own), payload),
        revealed_peer(own, HostAddr::V4(own)) is None,
{
}

/// Whether a failed receive is worth a log line. A connection reset during a
/// sweep is the expected answer of a host that is not there, and is passed
/// over in silence.
pub fn logs_receive_error(kind: DiscoveryKind, connection_reset: bool) -> (logged: bool)
    ensures
        logged == !(kind == DiscoveryKind::Sweep && connection_reset),
{
    match kind {
        DiscoveryKind::Sweep => !connection_reset,
        DiscoveryKind::Multicast => true,
    }
}

/// The number of hosts that a sweep from `ip` probes.
pub open spec fn sweep_len(ip: Ipv4) -> nat {
    if ip.d == 255 {
        255
    } else {
        254
    }
}

/// The `k`-th host that a sweep from `ip` probes: the hosts 0 to 254 of the
/// /24 network in rising order, `ip` itself left out.
pub open spec fn sweep_target(ip: Ipv4, k: int) -> Ipv4 {
    Ipv4 { a: ip.a, b: ip.b, c: ip.c, d: if k < ip.d { k as u8 } else { (k + 1) as u8 } }
}

/// The hosts that a sweep from `ip` probes, in order.
pub open spec fn sweep_spec(ip: Ipv4) -> Seq<Ipv4> {
    Seq::new(sweep_len(ip), |k: int| sweep_target(ip, k))
}

/// The hosts to greet in a sweep of the /24 network of `ip`: every host
/// number from 0 to 254 but that of `ip`, once, in rising order.
pub fn sweep_targets(ip: Ipv4) -> (targets: Vec<Ipv4>)
    ensures
        targets@ == sweep_spec(ip),
        !targets@.contains(ip),
        forall|k: int| 0 <= k < targets@.len() ==> ip.same_subnet_spec(#[trigger] targets@[k]),
{
    let mut targets: Vec<Ipv4> = Vec::new();
    let mut d: u8 = 0;
    while d < 255
        invariant
            d <= 255,
            targets@.len() == (if d <= ip.d { d as int } else { d - 1 }),
            forall|k: int| 0 <= k < targets@.len() ==> #[trigger] targets@[k] == sweep_target(ip, k),
        decreases 255 - d,
    {
        if d != ip.d {
            targets.push(ip.with_host(d));
        }
        d = d + 1;
    }
    assert(targets@ =~= sweep_spec(ip));
    targets
}

} // verus!
