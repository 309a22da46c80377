//! The relay core: the single owner of the directions. It turns a captured
//! broadcast frame into one unicast copy per known peer and records the
//! peers that discovery reports.

use crate::directions::{sighted, Direction};
use crate::net::Ipv4;
use crate::udp::{craft_udp_packet, crafted};
use vstd::prelude::*;

verus! {

/// Length in bytes of the link-layer header in front of a captured datagram.
pub const ETHERNET_HEADER_LEN: usize = 14;

/// The shortest frame that holds an IPv4 header behind the link-layer header.
pub const MIN_RELAY_FRAME_LEN: usize = 34;

/// Which discovery protocol saw a peer.
#[derive(Clone, Copy, Debug, PartialEq, Eq, Structural)]
pub enum DiscoveryKind {
    Multicast,
    Sweep,
}

/// A peer seen by discovery on the tunnel of one direction.
#[derive(Clone, Copy, Debug, PartialEq, Eq, Structural)]
pub struct DiscoveryEvent {
    pub kind: DiscoveryKind,
    pub direction: usize,
    pub ip: Ipv4,
}

/// What the producers hand to the relay core.
#[derive(Debug)]
pub enum RelayEvent {
    /// A captured link-layer frame.
    BroadcastFrame(Vec<u8>),
    /// A peer seen by discovery.
    Discovery(DiscoveryEvent),
}

/// One datagram to transmit on the tunnel of direction `direction`.
#[derive(Debug)]
pub struct Outgoing {
    pub direction: usize,
    pub packet: Vec<u8>,
}

/// What the relay core did with one event.
#[derive(Debug)]
pub enum RelayOutcome {
    /// The datagrams to transmit, each on its direction's tunnel.
    Transmit(Vec<Outgoing>),
    /// The frame cannot hold an IPv4 header and was dropped.
    Malformed,
    /// The peer was not known before.
    PeerJoined(Ipv4),
    /// The peer was known already.
    PeerKnown(Ipv4),
    /// Discovery named a direction that does not exist.
    UnknownDirection(usize),
}

impl View for Outgoing {
    type V = (int, Seq<u8>);

    open spec fn view(&self) -> (int, Seq<u8>) {
        (self.direction as int, self.packet@)
    }
}

/// The datagrams of a list, each as direction index and bytes.
pub open spec fn outgoing_view(list: Seq<Outgoing>) -> Seq<(int, Seq<u8>)> {
    Seq::new(list.len(), |k: int| list[k]@)
}

/// The copies of `payload` for the peers of direction `d`, which has index
/// `index`: one per peer, in the order of the peers, from the tunnel's
/// address to the peer's, the identification left as it is.
pub open spec fn copies_for(d: Direction, index: int, payload: Seq<u8>) -> Seq<(int, Seq<u8>)> {
    Seq::new(
        d.peers().len(),
        |k: int| (index, crafted(payload, d.local().octets_spec(), d.peers()[k].octets_spec(), None)),
    )
}

/// The copies of `payload` for the first `n` directions, direction by
/// direction.
pub open spec fn fan_out(directions: Seq<Direction>, n: int, payload: Seq<u8>) -> Seq<
    (int, Seq<u8>),
>
    decreases n,
{
    if n <= 0 {
        Seq::empty()
    } else {
        fan_out(directions, n - 1, payload) + copies_for(directions[n - 1], n - 1, payload)
    }
}

/// The number of copies that the first `n` directions get.
pub open spec fn peer_count(directions: Seq<Direction>, n: int) -> nat
    decreases n,
{
    if n <= 0 {
        0
    } else {
        peer_count(directions, n - 1) + directions[n - 1].peers().len()
    }
}

/// A frame fans out into one copy per known peer.
pub proof fn lemma_fan_out_len(directions: Seq<Direction>, n: int, payload: Seq<u8>)
    ensures
        fan_out(directions, n, payload).len() == peer_count(directions, n),
    decreases n,
{
    if n > 0 {
        lemma_fan_out_len(directions, n - 1, payload);
    }
}

/// Turns a captured frame into the unicast copies to transmit: the
/// link-layer header is stripped, and every peer of every direction gets the
/// datagram with the direction's tunnel address as source and its own as
/// destination. A frame too short to hold an IPv4 header gives nothing.
pub fn relay_broadcast(directions: &Vec<Direction>, frame: &[u8]) -> (r: Option<Vec<Outgoing>>)
    ensures
        r is None <==> frame@.len() < MIN_RELAY_FRAME_LEN,
        r is Some ==> outgoing_view(r->Some_0@) == fan_out(
            directions@,
            directions@.len() as int,
            frame@.subrange(ETHERNET_HEADER_LEN as int, frame@.len() as int),
        ),
{
    if frame.len() < MIN_RELAY_FRAME_LEN {
        return None;
    }
    let payload: &[u8] = vstd::slice::slice_subrange(frame, ETHERNET_HEADER_LEN, frame.len());
    let mut out: Vec<Outgoing> = Vec::new();
    let mut i: usize = 0;
    assert(outgoing_view(out@) =~= fan_out(directions@, 0, payload@));
    while i < directions.len()
        invariant
            i <= directions@.len(),
            payload@.len() >= 20,
            outgoing_view(out@) == fan_out(directions@, i as int, payload@),
        decreases directions@.len() - i,
    {
        let d: &Direction = &directions[i];
        let src: [u8; 4] = d.vpnip().octets();
        let peers: &Vec<Ipv4> = d.buddies();
        let ghost done = out@;
        let mut k: usize = 0;
        assert(outgoing_view(out@) =~= fan_out(directions@, i as int, payload@) + copies_for(
            *d,
            i as int,
            payload@,
        ).take(0));
        while k < peers.len()
            invariant
                k <= peers@.len(),
                i < directions@.len(),
                *d == directions@[i as int],
                peers@ == d.peers(),
                src@ == d.local().octets_spec(),
                payload@.len() >= 20,
                outgoing_view(out@) == fan_out(directions@, i as int, payload@) + copies_for(
                    *d,
                    i as int,
                    payload@,
                ).take(k as int),
            decreases peers@.len() - k,
        {
            let dst: [u8; 4] = peers[k].octets();
            let ghost before = out@;
            match craft_udp_packet(payload, &src, &dst, None) {
                Ok(packet) => {
                    out.push(Outgoing { direction: i, packet });
                },
                Err(_) => {
                    assert(false);
                },
            }
            proof {
                let copies = copies_for(*d, i as int, payload@);
                assert(copies.take(k as int + 1) =~= copies.take(k as int).push(copies[k as int]));
                assert(outgoing_view(out@) =~= outgoing_view(before).push(out@[before.len() as int]@))
                    by {
                    assert(out@.len() == before.len() + 1);
                    assert(forall|j: int| 0 <= j < before.len() ==> out@[j] == before[j]);
                }
                assert(outgoing_view(before).len() == before.len());
            }
            k = k + 1;
        }
        proof {
            let copies = copies_for(*d, i as int, payload@);
            assert(copies.take(peers@.len() as int) =~= copies);
        }
        i = i + 1;
    }
    Some(out)
}

/// Records a sighting of `ip` on direction `direction_id`. The result tells
/// whether the peer is new; a direction that does not exist gives `None` and
/// nothing changes.
pub fn note_peer(directions: &mut Vec<Direction>, direction_id: usize, ip: Ipv4) -> (r: Option<
    bool,
>)
    requires
        all_wf(old(directions)@),
    ensures
        final(directions)@.len() == old(directions)@.len(),
        all_wf(final(directions)@),
        r is None <==> direction_id >= old(directions)@.len(),
        r is None ==> final(directions)@ == old(directions)@,
        r is Some ==> r->Some_0 == !old(directions)@[direction_id as int].peers().contains(ip),
        r is Some ==> final(directions)@[direction_id as int].local() == old(
            directions,
        )@[direction_id as int].local(),
        r is Some ==> final(directions)@[direction_id as int].peers() == sighted(
            old(directions)@[direction_id as int].peers(),
            ip,
        ),
        forall|i: int|
            0 <= i < final(directions)@.len() && i != direction_id ==> final(directions)@[i] == old(
                directions,
            )@[i],
{
    if direction_id >= directions.len() {
        return None;
    }
    let is_new: bool = directions[direction_id].insert(ip);
    Some(is_new)
}

/// Every direction holds a set of peers.
pub open spec fn all_wf(directions: Seq<Direction>) -> bool {
    forall|i: int| 0 <= i < directions.len() ==> (#[trigger] directions[i]).wf()
}

/// One step of the relay core. A broadcast frame changes nothing and gives
/// the copies to transmit; a discovery event adds the peer to its direction
/// and tells whether it joined just now. No event makes the step fail.
pub fn handle_event(directions: &mut Vec<Direction>, event: RelayEvent) -> (r: RelayOutcome)
    requires
        all_wf(old(directions)@),
    ensures
        all_wf(final(directions)@),
        final(directions)@.len() == old(directions)@.len(),
        match event {
            RelayEvent::BroadcastFrame(data) => {
                &&& final(directions)@ == old(directions)@
                &&& data@.len() < MIN_RELAY_FRAME_LEN ==> r is Malformed
                &&& data@.len() >= MIN_RELAY_FRAME_LEN ==> r is Transmit && outgoing_view(
                    r->Transmit_0@,
                ) == fan_out(
                    old(directions)@,
                    old(directions)@.len() as int,
                    data@.subrange(ETHERNET_HEADER_LEN as int, data@.len() as int),
                )
            },
            RelayEvent::Discovery(seen) => {
                let id = seen.direction as int;
                &&& forall|i: int|
                    0 <= i < final(directions)@.len() && i != id ==> final(directions)@[i] == old(
                        directions,
                    )@[i]
                &&& id >= old(directions)@.len() ==> r == RelayOutcome::UnknownDirection(
                    seen.direction,
                ) && final(directions)@ == old(directions)@
                &&& id < old(directions)@.len() ==> {
                    &&& final(directions)@[id].local() == old(directions)@[id].local()
                    &&& final(directions)@[id].peers() == sighted(
                        old(directions)@[id].peers(),
                        seen.ip,
                    )
                    &&& r == if old(directions)@[id].peers().contains(seen.ip) {
                        RelayOutcome::PeerKnown(seen.ip)
                    } else {
                        RelayOutcome::PeerJoined(seen.ip)
                    }
                }
            },
        },
{
    match event {
        RelayEvent::BroadcastFrame(data) => {
            match relay_broadcast(directions, data.as_slice()) {
                Some(out) => RelayOutcome::Transmit(out),
                None => RelayOutcome::Malformed,
            }
        },
        RelayEvent::Discovery(seen) => {
            match note_peer(directions, seen.direction, seen.ip) {
                Some(true) => RelayOutcome::PeerJoined(seen.ip),
                Some(false) => RelayOutcome::PeerKnown(seen.ip),
                None => RelayOutcome::UnknownDirection(seen.direction),
            }
        },
    }
}

} // verus!
