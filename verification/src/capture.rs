//! Broadcast capture: the capture filter for a list of destination ports,
//! and the length below which a captured frame is dropped.

use crate::text::{decimal, push_decimal};
use vstd::prelude::*;

verus! {

/// Combined length of the link-layer, IPv4 and UDP headers. A frame that is
/// not longer carries nothing and is dropped.
pub const EMPTY_FRAME_LEN: u32 = 42;

/// Whether a captured frame of `len` bytes is handed on to the relay core.
pub fn frame_is_relayed(len: u32) -> (relayed: bool)
    ensures
        relayed == (len > EMPTY_FRAME_LEN),
{
    len > EMPTY_FRAME_LEN
}

/// The port clauses of the filter for the first `n` ports: the first port
/// opens the group, each further one is an alternative.
pub open spec fn port_clauses(ports: Seq<u16>, n: int) -> Seq<char>
    decreases n,
{
    if n <= 0 {
        Seq::empty()
    } else if n == 1 {
        " and ((dst port "@ + decimal(ports[0] as nat) + ")"@
    } else {
        port_clauses(ports, n - 1) + " or (dst port "@ + decimal(ports[n - 1] as nat) + ")"@
    }
}

/// The capture filter: IPv4 broadcast traffic, narrowed to the given
/// destination ports where there are any.
pub open spec fn broadcast_filter_spec(ports: Seq<u16>) -> Seq<char> {
    if ports.len() == 0 {
        "ip broadcast"@
    } else {
        "ip broadcast"@ + port_clauses(ports, ports.len() as int) + ")"@
    }
}

/// Builds the capture filter for IPv4 broadcast traffic. An empty port list
/// lets every port through; otherwise only datagrams to one of the ports
/// pass.
pub fn broadcast_filter(ports: &[u16]) -> (filter: String)
    ensures
        filter@ == broadcast_filter_spec(ports@),
{
    let mut filter: String = String::from_str("ip broadcast");
    if ports.len() == 0 {
        return filter;
    }
    let mut i: usize = 0;
    assert(filter@ =~= "ip broadcast"@ + port_clauses(ports@, 0));
    while i < ports.len()
        invariant
            i <= ports@.len(),
            filter@ == "ip broadcast"@ + port_clauses(ports@, i as int),
        decreases ports@.len() - i,
    {
        let ghost before = filter@;
        let ghost lead = "ip broadcast"@;
        let ghost number = decimal(ports@[i as int] as nat);
        if i == 0 {
            filter.append(" and ((dst port ");
            assert(port_clauses(ports@, 0) =~= Seq::<char>::empty());
            assert(filter@ =~= lead + " and ((dst port "@);
        } else {
            filter.append(" or (dst port ");
        }
        push_decimal(&mut filter, ports[i]);
        filter.append(")");
        proof {
            if i == 0 {
                assert(filter@ =~= lead + (" and ((dst port "@ + number + ")"@));
            } else {
                let done = port_clauses(ports@, i as int);
                assert(filter@ =~= lead + (done + " or (dst port "@ + number + ")"@));
            }
        }
        i = i + 1;
    }
    filter.append(")");
    filter
}

} // verus!
