//! The ethertype field of a link-layer header and its classification.

use vstd::prelude::*;

verus! {

/// The ethertype value that announces an IPv4 packet.
pub const IPV4: u16 = 0x0800;

/// The ethertype value that announces an IPv6 packet.
pub const IPV6: u16 = 0x86dd;

/// The network-layer protocols that the parsers know, and `UNKNOWN` for
/// every other ethertype value.
#[allow(non_camel_case_types)]
#[derive(Clone, Copy, Debug, PartialEq, Eq, Structural, Hash)]
pub enum Ethertype {
    IPV4,
    IPV6,
    UNKNOWN,
}

impl Ethertype {
    /// The number that stands for the tag. `UNKNOWN` stands for every other
    /// ethertype value and has none of them as its own: its number is the
    /// one that follows `IPV6`.
    pub open spec fn code(self) -> u16 {
        match self {
            Ethertype::IPV4 => IPV4,
            Ethertype::IPV6 => IPV6,
            Ethertype::UNKNOWN => 0x86de,
        }
    }

    /// The number that stands for the tag.
    pub fn value(&self) -> (code: u16)
        ensures
            code == self.code(),
    {
        match self {
            Ethertype::IPV4 => IPV4,
            Ethertype::IPV6 => IPV6,
            Ethertype::UNKNOWN => IPV6 + 1,
        }
    }
}

/// The classification of a 16-bit ethertype value.
pub open spec fn ethertype_of(value: u16) -> Ethertype {
    if value == IPV4 {
        Ethertype::IPV4
    } else if value == IPV6 {
        Ethertype::IPV6
    } else {
        Ethertype::UNKNOWN
    }
}

/// Classifies a 16-bit ethertype value. Total: every value other than
/// the two known constants, zero included, is `UNKNOWN`.
pub fn to_ethertype(value: u16) -> (tag: Ethertype)
    ensures
        tag == ethertype_of(value),
        tag == Ethertype::IPV4 <==> value == 0x0800,
        tag == Ethertype::IPV6 <==> value == 0x86dd,
        tag == Ethertype::UNKNOWN <==> (value != 0x0800 && value != 0x86dd),
{
    match value {
        IPV4 => Ethertype::IPV4,
        IPV6 => Ethertype::IPV6,
        _ => Ethertype::UNKNOWN,
    }
}

/// The two known tags are classified back from their numbers, and nothing
/// else is classified as one of them.
pub proof fn lemma_known_codes(value: u16)
    ensures
        ethertype_of(Ethertype::IPV4.code()) == Ethertype::IPV4,
        ethertype_of(Ethertype::IPV6.code()) == Ethertype::IPV6,
        ethertype_of(value) != Ethertype::UNKNOWN ==> ethertype_of(value).code() == value,
{
}

} // verus!
