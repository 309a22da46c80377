//! The direction registry: one direction per tunnel, each with the set of
//! peers reached through it, and the partition of the configured peers over
//! the tunnels by /24 subnet.

use crate::net::{HostAddr, Ipv4};
use vstd::prelude::*;

verus! {

/// One tunnel: its local address and the peers that are reached through it.
#[derive(Debug)]
pub struct Direction {
    vpnip: Ipv4,
    buddyip: Vec<Ipv4>,
}

impl Direction {
    /// The tunnel's own address.
    pub closed spec fn local(&self) -> Ipv4 {
        self.vpnip
    }

    /// The known peers, in the order in which they were first seen.
    pub closed spec fn peers(&self) -> Seq<Ipv4> {
        self.buddyip@
    }

    /// The peers form a set: no address is held twice.
    pub open spec fn wf(&self) -> bool {
        self.peers().no_duplicates()
    }

    /// A direction without peers.
    pub fn new(vpnip: Ipv4) -> (d: Direction)
        ensures
            d.wf(),
            d.local() == vpnip,
            d.peers() == Seq::<Ipv4>::empty(),
    {
        Direction { vpnip, buddyip: Vec::new() }
    }

    /// A direction that holds every address of `list` once, in the order in
    /// which the list first names them.
    pub fn with_peers(vpnip: Ipv4, list: &[Ipv4]) -> (d: Direction)
        ensures
            d.wf(),
            d.local() == vpnip,
            d.peers() == collected(list@, list@.len() as int),
            forall|p: Ipv4| d.peers().contains(p) <==> list@.contains(p),
    {
        let mut d = Direction::new(vpnip);
        let mut i: usize = 0;
        while i < list.len()
            invariant
                i <= list@.len(),
                d.wf(),
                d.local() == vpnip,
                d.peers() == collected(list@, i as int),
                forall|p: Ipv4| d.peers().contains(p) <==> list@.take(i as int).contains(p),
            decreases list@.len() - i,
        {
            let ghost before = d.peers();
            let _ = d.insert(list[i]);
            proof {
                let step = list@.take(i as int + 1);
                assert(step.drop_last() =~= list@.take(i as int));
                assert(step.last() == list@[i as int]);
                assert forall|p: Ipv4| d.peers().contains(p) <==> step.contains(p) by {
                    if step.contains(p) {
                        let k = choose|k: int| 0 <= k < step.len() && step[k] == p;
                        if k < i {
                            assert(list@.take(i as int)[k] == p);
                        }
                    }
                    if d.peers().contains(p) && p != list@[i as int] {
                        assert(before.contains(p));
                        let k = choose|k: int|
                            0 <= k < list@.take(i as int).len() && list@.take(i as int)[k] == p;
                        assert(step[k] == p);
                    }
                    if p == list@[i as int] {
                        assert(step[i as int] == p);
                    }
                }
            }
            i = i + 1;
        }
        assert(list@.take(list@.len() as int) =~= list@);
        d
    }

    /// The tunnel's own address.
    pub fn vpnip(&self) -> (ip: Ipv4)
        ensures
            ip == self.local(),
    {
        self.vpnip
    }

    /// The known peers, in the order in which they were first seen.
    pub fn buddies(&self) -> (list: &Vec<Ipv4>)
        ensures
            list@ == self.peers(),
    {
        &self.buddyip
    }

    /// The number of known peers.
    pub fn len(&self) -> (n: usize)
        ensures
            n == self.peers().len(),
    {
        self.buddyip.len()
    }

    /// Whether `ip` is a known peer.
    pub fn contains(&self, ip: Ipv4) -> (found: bool)
        ensures
            found == self.peers().contains(ip),
    {
        contains_ip(self.buddyip.as_slice(), ip)
    }

    /// Adds a peer. A repeated sighting changes nothing; the result tells
    /// whether the peer is new.
    pub fn insert(&mut self, ip: Ipv4) -> (is_new: bool)
        requires
            old(self).wf(),
        ensures
            final(self).wf(),
            final(self).local() == old(self).local(),
            is_new == !old(self).peers().contains(ip),
            final(self).peers() == sighted(old(self).peers(), ip),
            final(self).peers().contains(ip),
            forall|p: Ipv4|
                final(self).peers().contains(p) <==> (p == ip || old(self).peers().contains(p)),
    {
        if contains_ip(self.buddyip.as_slice(), ip) {
            false
        } else {
            self.buddyip.push(ip);
            proof {
                let after = self.buddyip@;
                assert(after.last() == ip);
                assert(after.drop_last() =~= old(self).buddyip@);
                assert forall|p: Ipv4| after.contains(p) <==> (p == ip || old(
                    self,
                ).buddyip@.contains(p)) by {
                    if old(self).buddyip@.contains(p) {
                        let k = choose|k: int|
                            0 <= k < old(self).buddyip@.len() && old(self).buddyip@[k] == p;
                        assert(after[k] == p);
                    }
                }
            }
            true
        }
    }
}

/// The peer list after a sighting of `ip`: a known peer changes nothing, a
/// new one goes to the end.
pub open spec fn sighted(peers: Seq<Ipv4>, ip: Ipv4) -> Seq<Ipv4> {
    if peers.contains(ip) {
        peers
    } else {
        peers.push(ip)
    }
}

/// The peer list after a sighting of each of the first `n` addresses of
/// `list`, in order.
pub open spec fn collected(list: Seq<Ipv4>, n: int) -> Seq<Ipv4>
    decreases n,
{
    if n <= 0 {
        Seq::empty()
    } else {
        sighted(collected(list, n - 1), list[n - 1])
    }
}

/// Sighting the same peer twice is the same as sighting it once: the list
/// grows by one for a new peer and not at all for a known one, and it stays
/// without duplicates.
pub proof fn lemma_sighting_idempotent(peers: Seq<Ipv4>, ip: Ipv4)
    requires
        peers.no_duplicates(),
    ensures
        sighted(sighted(peers, ip), ip) == sighted(peers, ip),
        sighted(peers, ip).no_duplicates(),
        sighted(peers, ip).contains(ip),
        !peers.contains(ip) ==> sighted(sighted(peers, ip), ip).len() == peers.len() + 1,
        peers.contains(ip) ==> sighted(sighted(peers, ip), ip).len() == peers.len(),
{
    if !peers.contains(ip) {
        let once = peers.push(ip);
        assert(once[peers.len() as int] == ip);
    }
}

/// Whether `ip` occurs in `list`.
pub fn contains_ip(list: &[Ipv4], ip: Ipv4) -> (found: bool)
    ensures
        found == list@.contains(ip),
{
    let mut i: usize = 0;
    while i < list.len()
        invariant
            i <= list@.len(),
            forall|k: int| 0 <= k < i ==> list@[k] != ip,
        decreases list@.len() - i,
    {
        if list[i] == ip {
            return true;
        }
        i = i + 1;
    }
    false
}

/// The adapters that the relay was configured with, each by the address
/// that the relay reads from it: the capture source and the tunnels.
#[derive(Debug)]
pub struct ParsedDevices {
    pub src: HostAddr,
    pub dst: Vec<HostAddr>,
}

/// Why a configuration is refused.
pub enum Fault {
    /// A configured peer is the address of the capture source or of a tunnel.
    OwnAddress(Ipv4),
    /// A tunnel has an IPv6 address.
    Ipv6Tunnel,
    /// The peer lies in the /24 network of more than one tunnel.
    AmbiguousPeer(Ipv4),
    /// The peers that lie in no tunnel's /24 network.
    UnmatchedPeers(Seq<Ipv4>),
}

/// Why a configuration is refused, as returned to the caller.
#[derive(Debug)]
pub enum ConfigError {
    /// A configured peer is the address of the capture source or of a tunnel.
    OwnAddress(Ipv4),
    /// A tunnel has an IPv6 address.
    Ipv6Tunnel,
    /// The peer lies in the /24 network of more than one tunnel.
    AmbiguousPeer(Ipv4),
    /// The peers that lie in no tunnel's /24 network, in configured order.
    UnmatchedPeers(Vec<Ipv4>),
}

impl View for ConfigError {
    type V = Fault;

    open spec fn view(&self) -> Fault {
        match self {
            ConfigError::OwnAddress(ip) => Fault::OwnAddress(*ip),
            ConfigError::Ipv6Tunnel => Fault::Ipv6Tunnel,
            ConfigError::AmbiguousPeer(ip) => Fault::AmbiguousPeer(*ip),
            ConfigError::UnmatchedPeers(list) => Fault::UnmatchedPeers(list@),
        }
    }
}

/// Whether tunnel `t` reaches peer `p`: it has an IPv4 address in the /24
/// network of `p`.
pub open spec fn serves(t: HostAddr, p: Ipv4) -> bool {
    t matches HostAddr::V4(ip) && ip.same_subnet_spec(p)
}

/// The addresses in the /24 network of `ip`.
pub open spec fn in_subnet_of(ip: Ipv4) -> spec_fn(Ipv4) -> bool {
    |p: Ipv4| ip.same_subnet_spec(p)
}

/// The addresses that none of the tunnels reaches.
pub open spec fn unserved_by(tunnels: Seq<HostAddr>) -> spec_fn(Ipv4) -> bool {
    |p: Ipv4| forall|j: int| 0 <= j < tunnels.len() ==> !serves(#[trigger] tunnels[j], p)
}

/// Whether one of the tunnels before index `i` reaches `ip`.
pub open spec fn served_before(tunnels: Seq<HostAddr>, i: int, ip: Ipv4) -> bool {
    exists|j: int| 0 <= j < i && serves(#[trigger] tunnels[j], ip)
}

/// What is wrong with tunnel `i`, if anything: it has an IPv6 address, its
/// own address is among the peers, or it shares its /24 network with an
/// earlier tunnel while peers lie in that network.
pub open spec fn tunnel_fault(tunnels: Seq<HostAddr>, peers: Seq<Ipv4>, i: int) -> Option<Fault> {
    match tunnels[i] {
        HostAddr::V6 => Some(Fault::Ipv6Tunnel),
        HostAddr::V4(ip) => {
            let claimed = peers.filter(in_subnet_of(ip));
            if peers.contains(ip) {
                Some(Fault::OwnAddress(ip))
            } else if claimed.len() > 0 && served_before(tunnels, i, ip) {
                Some(Fault::AmbiguousPeer(claimed[0]))
            } else {
                None
            }
        },
    }
}

/// The fault of the first faulty tunnel from index `i` on.
pub open spec fn first_tunnel_fault(tunnels: Seq<HostAddr>, peers: Seq<Ipv4>, i: int) -> Option<
    Fault,
>
    decreases tunnels.len() - i,
{
    if i < 0 || i >= tunnels.len() {
        None
    } else {
        match tunnel_fault(tunnels, peers, i) {
            Some(f) => Some(f),
            None => first_tunnel_fault(tunnels, peers, i + 1),
        }
    }
}

/// Why the configuration is refused, if it is. The checks come in this
/// order: the capture source's own address among the peers; the tunnels one
/// by one; peers that no tunnel reaches.
pub open spec fn config_fault(src: HostAddr, tunnels: Seq<HostAddr>, peers: Seq<Ipv4>) -> Option<
    Fault,
> {
    if src matches HostAddr::V4(ip) && peers.contains(ip) {
        Some(Fault::OwnAddress(src->V4_0))
    } else if first_tunnel_fault(tunnels, peers, 0) is Some {
        first_tunnel_fault(tunnels, peers, 0)
    } else if peers.filter(unserved_by(tunnels)).len() > 0 {
        Some(Fault::UnmatchedPeers(peers.filter(unserved_by(tunnels))))
    } else {
        None
    }
}

/// The direction of `tunnel` as the configuration builds it: it holds, once
/// each and in configured order, the peers that lie in the tunnel's /24
/// network.
pub open spec fn assigned(d: Direction, tunnel: HostAddr, peers: Seq<Ipv4>) -> bool {
    &&& d.wf()
    &&& tunnel == HostAddr::V4(d.local())
    &&& d.peers() == collected(
        peers.filter(in_subnet_of(d.local())),
        peers.filter(in_subnet_of(d.local())).len() as int,
    )
    &&& forall|p: Ipv4|
        d.peers().contains(p) <==> (peers.contains(p) && d.local().same_subnet_spec(p))
}

/// A filtered sequence holds exactly the members that pass the filter.
pub proof fn lemma_filter_members<A>(s: Seq<A>, pred: spec_fn(A) -> bool, x: A)
    ensures
        s.filter(pred).contains(x) <==> (s.contains(x) && pred(x)),
    decreases s.len(),
{
    reveal(Seq::filter);
    if s.len() > 0 {
        let rest = s.drop_last();
        lemma_filter_members(rest, pred, x);
        let kept = rest.filter(pred);
        if s.contains(x) {
            let k = choose|k: int| 0 <= k < s.len() && s[k] == x;
            if k < s.len() - 1 {
                assert(rest[k] == x);
            }
        }
        if rest.contains(x) {
            let k = choose|k: int| 0 <= k < rest.len() && rest[k] == x;
            assert(s[k] == x);
        }
        if pred(s.last()) {
            let out = kept.push(s.last());
            assert(out.last() == s.last());
            assert(out.drop_last() =~= kept);
            if kept.contains(x) {
                let k = choose|k: int| 0 <= k < kept.len() && kept[k] == x;
                assert(out[k] == x);
            }
            if out.contains(x) {
                let k = choose|k: int| 0 <= k < out.len() && out[k] == x;
                if k < kept.len() {
                    assert(kept[k] == x);
                }
            }
            assert(s[s.len() - 1] == s.last());
        } else {
            assert(s[s.len() - 1] == s.last());
        }
    }
}

/// No tunnel from `from` on is faulty exactly if the scan from `from` finds
/// no fault.
pub proof fn lemma_no_tunnel_fault(tunnels: Seq<HostAddr>, peers: Seq<Ipv4>, from: int)
    requires
        0 <= from <= tunnels.len(),
    ensures
        first_tunnel_fault(tunnels, peers, from) is None <==> forall|i: int|
            from <= i < tunnels.len() ==> tunnel_fault(tunnels, peers, i) is None,
    decreases tunnels.len() - from,
{
    if from < tunnels.len() {
        lemma_no_tunnel_fault(tunnels, peers, from + 1);
        if first_tunnel_fault(tunnels, peers, from) is None {
            assert forall|i: int| from <= i < tunnels.len() implies tunnel_fault(
                tunnels,
                peers,
                i,
            ) is None by {
                if i > from {
                    assert(from + 1 <= i);
                }
            }
        }
    }
}

/// A peer that is a tunnel's own address makes the configuration fail.
pub proof fn lemma_own_address_refused(
    src: HostAddr,
    tunnels: Seq<HostAddr>,
    peers: Seq<Ipv4>,
    i: int,
)
    requires
        0 <= i < tunnels.len(),
        tunnels[i] is V4,
        peers.contains(tunnels[i]->V4_0),
    ensures
        config_fault(src, tunnels, peers) is Some,
        !(config_fault(src, tunnels, peers)->Some_0 is UnmatchedPeers),
{
    lemma_no_tunnel_fault(tunnels, peers, 0);
    assert(tunnel_fault(tunnels, peers, i) is Some);
    lemma_tunnel_fault_kind(tunnels, peers, 0);
}

/// The scan over the tunnels never reports unmatched peers.
pub proof fn lemma_tunnel_fault_kind(tunnels: Seq<HostAddr>, peers: Seq<Ipv4>, from: int)
    requires
        0 <= from <= tunnels.len(),
    ensures
        first_tunnel_fault(tunnels, peers, from) is Some ==> !(first_tunnel_fault(
            tunnels,
            peers,
            from,
        )->Some_0 is UnmatchedPeers),
    decreases tunnels.len() - from,
{
    if from < tunnels.len() {
        lemma_tunnel_fault_kind(tunnels, peers, from + 1);
    }
}

/// A peer that lies in no tunnel's /24 network makes the configuration fail;
/// where nothing else is wrong, the failure names it among the unmatched
/// peers.
pub proof fn lemma_unmatched_peer_refused(
    src: HostAddr,
    tunnels: Seq<HostAddr>,
    peers: Seq<Ipv4>,
    p: Ipv4,
)
    requires
        peers.contains(p),
        forall|j: int| 0 <= j < tunnels.len() ==> !serves(#[trigger] tunnels[j], p),
    ensures
        config_fault(src, tunnels, peers) is Some,
        !(src matches HostAddr::V4(ip) && peers.contains(ip)) && first_tunnel_fault(
            tunnels,
            peers,
            0,
        ) is None ==> (config_fault(src, tunnels, peers) matches Some(Fault::UnmatchedPeers(list))
            && list.contains(p)),
{
    assert(unserved_by(tunnels)(p));
    lemma_filter_members(peers, unserved_by(tunnels), p);
}

/// In a configuration that is accepted, every configured peer lies in the
/// network of exactly one tunnel, and no peer is a tunnel's own address.
pub proof fn lemma_peer_has_one_tunnel(
    src: HostAddr,
    tunnels: Seq<HostAddr>,
    peers: Seq<Ipv4>,
    p: Ipv4,
)
    requires
        config_fault(src, tunnels, peers) is None,
        peers.contains(p),
    ensures
        exists|i: int| 0 <= i < tunnels.len() && serves(#[trigger] tunnels[i], p),
        forall|i: int, j: int|
            0 <= i < tunnels.len() && 0 <= j < tunnels.len() && serves(#[trigger] tunnels[i], p)
                && serves(#[trigger] tunnels[j], p) ==> i == j,
        forall|i: int| 0 <= i < tunnels.len() ==> #[trigger] tunnels[i] != HostAddr::V4(p),
{
    lemma_no_tunnel_fault(tunnels, peers, 0);
    lemma_filter_members(peers, unserved_by(tunnels), p);
    if unserved_by(tunnels)(p) {
        assert(peers.filter(unserved_by(tunnels)).contains(p));
        assert(false);
    }
    assert forall|i: int, j: int|
        0 <= i < tunnels.len() && 0 <= j < tunnels.len() && serves(#[trigger] tunnels[i], p)
            && serves(#[trigger] tunnels[j], p) implies i == j by {
        if i != j {
            let lo: int = if i < j { i } else { j };
            let hi: int = if i < j { j } else { i };
            let ip = tunnels[hi]->V4_0;
            lemma_filter_members(peers, in_subnet_of(ip), p);
            assert(peers.filter(in_subnet_of(ip)).contains(p));
            assert(serves(tunnels[lo], ip));
            assert(served_before(tunnels, hi, ip));
            assert(tunnel_fault(tunnels, peers, hi) is Some);
        }
    }
    assert forall|i: int| 0 <= i < tunnels.len() implies #[trigger] tunnels[i] != HostAddr::V4(
        p,
    ) by {
        if tunnels[i] == HostAddr::V4(p) {
            assert(tunnel_fault(tunnels, peers, i) is Some);
        }
    }
}

/// The members of `list` that lie in the /24 network of `ip`, in order.
pub fn peers_in_subnet(list: &[Ipv4], ip: Ipv4) -> (claimed: Vec<Ipv4>)
    ensures
        claimed@ == list@.filter(in_subnet_of(ip)),
{
    let mut claimed: Vec<Ipv4> = Vec::new();
    let mut i: usize = 0;
    proof {
        reveal(Seq::filter);
        assert(list@.take(0) =~= Seq::<Ipv4>::empty());
    }
    while i < list.len()
        invariant
            i <= list@.len(),
            claimed@ == list@.take(i as int).filter(in_subnet_of(ip)),
        decreases list@.len() - i,
    {
        proof {
            reveal(Seq::filter);
            assert(list@.take(i as int + 1).drop_last() =~= list@.take(i as int));
            assert(list@.take(i as int + 1).last() == list@[i as int]);
        }
        if ip.same_subnet(list[i]) {
            claimed.push(list[i]);
        }
        i = i + 1;
    }
    assert(list@.take(list@.len() as int) =~= list@);
    claimed
}

/// Whether one of the tunnels reaches `p`.
pub fn is_served(tunnels: &[HostAddr], p: Ipv4) -> (served: bool)
    ensures
        served == !unserved_by(tunnels@)(p),
{
    let mut j: usize = 0;
    while j < tunnels.len()
        invariant
            j <= tunnels@.len(),
            forall|k: int| 0 <= k < j ==> !serves(#[trigger] tunnels@[k], p),
        decreases tunnels@.len() - j,
    {
        match tunnels[j] {
            HostAddr::V4(ip) => {
                if ip.same_subnet(p) {
                    assert(serves(tunnels@[j as int], p));
                    return true;
                }
            },
            HostAddr::V6 => {},
        }
        j = j + 1;
    }
    false
}

/// The members of `list` that none of the tunnels reaches, in order.
pub fn unmatched_peers(tunnels: &[HostAddr], list: &[Ipv4]) -> (rest: Vec<Ipv4>)
    ensures
        rest@ == list@.filter(unserved_by(tunnels@)),
{
    let mut rest: Vec<Ipv4> = Vec::new();
    let mut i: usize = 0;
    proof {
        reveal(Seq::filter);
        assert(list@.take(0) =~= Seq::<Ipv4>::empty());
    }
    while i < list.len()
        invariant
            i <= list@.len(),
            rest@ == list@.take(i as int).filter(unserved_by(tunnels@)),
        decreases list@.len() - i,
    {
        proof {
            reveal(Seq::filter);
            assert(list@.take(i as int + 1).drop_last() =~= list@.take(i as int));
            assert(list@.take(i as int + 1).last() == list@[i as int]);
        }
        if !is_served(tunnels, list[i]) {
            rest.push(list[i]);
        }
        i = i + 1;
    }
    assert(list@.take(list@.len() as int) =~= list@);
    rest
}

/// Whether one of the directions has its tunnel in the /24 network of `ip`.
fn subnet_taken(dirs: &Vec<Direction>, ip: Ipv4) -> (taken: bool)
    ensures
        taken == exists|k: int|
            0 <= k < dirs@.len() && (#[trigger] dirs@[k]).local().same_subnet_spec(ip),
{
    let mut k: usize = 0;
    while k < dirs.len()
        invariant
            k <= dirs@.len(),
            forall|j: int| 0 <= j < k ==> !(#[trigger] dirs@[j]).local().same_subnet_spec(ip),
        decreases dirs@.len() - k,
    {
        if dirs[k].vpnip().same_subnet(ip) {
            return true;
        }
        k = k + 1;
    }
    false
}

/// Builds the directions of a configuration: one per tunnel, in order, each
/// with the configured peers that lie in the tunnel's /24 network.
///
/// The configuration is refused where a peer is the capture source's or a
/// tunnel's own address, where a tunnel has an IPv6 address, where a peer
/// lies in the network of more than one tunnel, and where a peer lies in no
/// tunnel's network. No peer is dropped and none is assigned twice.
pub fn open_dst_devices(devices: ParsedDevices, buddyip_slice: &[Ipv4]) -> (r: Result<
    Vec<Direction>,
    ConfigError,
>)
    ensures
        r is Err <==> config_fault(devices.src, devices.dst@, buddyip_slice@) is Some,
        r is Err ==> Some(r->Err_0@) == config_fault(devices.src, devices.dst@, buddyip_slice@),
        r is Ok ==> r->Ok_0@.len() == devices.dst@.len(),
        r is Ok ==> forall|i: int|
            0 <= i < devices.dst@.len() ==> assigned(
                #[trigger] r->Ok_0@[i],
                devices.dst@[i],
                buddyip_slice@,
            ),
{
    let ghost tunnels = devices.dst@;
    let ghost peers = buddyip_slice@;
    if let HostAddr::V4(ip4) = devices.src {
        if contains_ip(buddyip_slice, ip4) {
            return Err(ConfigError::OwnAddress(ip4));
        }
    }
    let mut dirs: Vec<Direction> = Vec::new();
    let mut i: usize = 0;
    while i < devices.dst.len()
        invariant
            i <= tunnels.len(),
            tunnels == devices.dst@,
            peers == buddyip_slice@,
            dirs@.len() == i,
            !(devices.src matches HostAddr::V4(ip) && peers.contains(ip)),
            first_tunnel_fault(tunnels, peers, 0) == first_tunnel_fault(tunnels, peers, i as int),
            forall|k: int| 0 <= k < i ==> assigned(#[trigger] dirs@[k], tunnels[k], peers),
        decreases tunnels.len() - i,
    {
        match devices.dst[i] {
            HostAddr::V6 => {
                return Err(ConfigError::Ipv6Tunnel);
            },
            HostAddr::V4(ip4) => {
                let claimed: Vec<Ipv4> = peers_in_subnet(buddyip_slice, ip4);
                if contains_ip(buddyip_slice, ip4) {
                    return Err(ConfigError::OwnAddress(ip4));
                }
                let taken: bool = subnet_taken(&dirs, ip4);
                proof {
                    if taken {
                        let k = choose|k: int|
                            0 <= k < dirs@.len() && (#[trigger] dirs@[k]).local().same_subnet_spec(
                                ip4,
                            );
                        assert(serves(tunnels[k], ip4));
                    }
                    if served_before(tunnels, i as int, ip4) {
                        let j = choose|j: int| 0 <= j < i && serves(#[trigger] tunnels[j], ip4);
                        assert(dirs@[j].local().same_subnet_spec(ip4));
                    }
                    assert(taken == served_before(tunnels, i as int, ip4));
                }
                if claimed.len() > 0 && taken {
                    return Err(ConfigError::AmbiguousPeer(claimed[0]));
                }
                let d: Direction = Direction::with_peers(ip4, claimed.as_slice());
                proof {
                    assert forall|p: Ipv4|
                        d.peers().contains(p) <==> (peers.contains(p) && ip4.same_subnet_spec(
                            p,
                        )) by {
                        lemma_filter_members(peers, in_subnet_of(ip4), p);
                    }
                }
                assert(assigned(d, tunnels[i as int], peers));
                dirs.push(d);
            },
        }
        i = i + 1;
    }
    let rest: Vec<Ipv4> = unmatched_peers(devices.dst.as_slice(), buddyip_slice);
    if rest.len() > 0 {
        return Err(ConfigError::UnmatchedPeers(rest));
    }
    Ok(dirs)
}

} // verus!
