//! The identity of a flow: ethertype, addresses, transport protocol, ports.

use vstd::prelude::*;
use crate::ether::Ethertype;

verus! {

/// The transport-protocol number of TCP.
pub const TCP: u8 = 6;

/// The transport-protocol number of UDP.
pub const UDP: u8 = 17;

/// The identity of a flow. Two frames belong to one flow exactly when all
/// six fields agree; a flow and its reverse are different flows.
///
/// Both address families share the 128-bit address fields: an IPv4 address
/// occupies the low 32 bits. `ether` says which family the two addresses
/// belong to, and since `ether` takes part in equality, an IPv4 address is
/// never taken for an IPv6 address of the same numeric value.
#[derive(Clone, Copy, Debug, PartialEq, Eq, Structural, Hash)]
pub struct FiveTuple {
    pub ether: Ethertype,
    pub l3_src: u128,
    pub l3_dst: u128,
    pub next_proto: u8,
    pub l4_sport: u16,
    pub l4_dport: u16,
}

impl FiveTuple {
    /// The tuple of a frame of which nothing has been read.
    pub open spec fn blank() -> FiveTuple {
        FiveTuple {
            ether: Ethertype::UNKNOWN,
            l3_src: 0,
            l3_dst: 0,
            next_proto: 0,
            l4_sport: 0,
            l4_dport: 0,
        }
    }

    /// A tuple with unknown ethertype and every other field zero.
    pub fn new() -> (tuple: Self)
        ensures
            tuple == Self::blank(),
    {
        Self {
            ether: Ethertype::UNKNOWN,
            l3_src: 0,
            l3_dst: 0,
            next_proto: 0,
            l4_sport: 0,
            l4_dport: 0,
        }
    }
}

/// Equality of flow identities is equality of all six fields.
pub proof fn lemma_identity_is_structural(a: FiveTuple, b: FiveTuple)
    ensures
        a == b <==> {
            &&& a.ether == b.ether
            &&& a.l3_src == b.l3_src
            &&& a.l3_dst == b.l3_dst
            &&& a.next_proto == b.next_proto
            &&& a.l4_sport == b.l4_sport
            &&& a.l4_dport == b.l4_dport
        },
{
}

} // verus!
