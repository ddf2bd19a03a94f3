//! Reading a flow's identity out of a captured frame.
//!
//! A frame starts with a 14-byte link header whose last two bytes are the
//! ethertype. The network-layer header follows, and after it the transport
//! header. No reader here trusts the frame's length: each says in its
//! contract which bytes must be present for it to read anything.

use vstd::prelude::*;
use crate::endian::{be_field, be_value, pow256, read_be};
use crate::ether::{ethertype_of, to_ethertype, Ethertype};
use crate::flow::{FiveTuple, TCP, UDP};

verus! {

/// The length of the link header, and so the offset of the network-layer
/// header.
pub const LINK_HEADER_LEN: usize = 14;

/// The offset of the ethertype within the link header.
pub const ETHERTYPE_AT: usize = 12;

/// The length of an IPv4 header without options.
pub const IPV4_FIXED_LEN: usize = 20;

/// The length of the IPv6 base header.
pub const IPV6_HEADER_LEN: usize = 40;

/// Whether `data` holds `n` bytes from offset `at` on.
pub open spec fn holds(data: Seq<u8>, at: int, n: int) -> bool {
    0 <= at && 0 <= n && at + n <= data.len()
}

/// The ethertype of a frame: unknown when the link header is cut short.
pub open spec fn frame_ethertype(data: Seq<u8>) -> Ethertype {
    if holds(data, 0, LINK_HEADER_LEN as int) {
        ethertype_of(be_field(data, ETHERTYPE_AT as int, 2) as u16)
    } else {
        Ethertype::UNKNOWN
    }
}

/// The length in bytes that the IPv4 header at `offset` declares: its
/// header-length field, the low four bits of the first byte, counts words of
/// four bytes.
pub open spec fn ipv4_header_len(data: Seq<u8>, offset: int) -> int {
    4 * (data[offset] % 16)
}

/// `before` with the protocol number and the addresses of the IPv4 header
/// at `offset`, if the header's fixed 20 bytes are present.
pub open spec fn ipv4_parsed(data: Seq<u8>, offset: int, before: FiveTuple) -> FiveTuple {
    if holds(data, offset, IPV4_FIXED_LEN as int) {
        FiveTuple {
            next_proto: data[offset + 9],
            l3_src: be_field(data, offset + 12, 4) as u128,
            l3_dst: be_field(data, offset + 16, 4) as u128,
            ..before
        }
    } else {
        before
    }
}

/// Where the transport header starts behind the IPv4 header at `offset`:
/// the header's declared length further on. There is none when the frame
/// ends before the fixed 20 bytes or before the declared length.
pub open spec fn ipv4_next(data: Seq<u8>, offset: int) -> Option<int> {
    if holds(data, offset, IPV4_FIXED_LEN as int) && holds(
        data,
        offset,
        ipv4_header_len(data, offset),
    ) {
        Some(offset + ipv4_header_len(data, offset))
    } else {
        None
    }
}

/// `before` with the next-header number and the addresses of the IPv6
/// header at `offset`, if its 40 bytes are present.
pub open spec fn ipv6_parsed(data: Seq<u8>, offset: int, before: FiveTuple) -> FiveTuple {
    if holds(data, offset, IPV6_HEADER_LEN as int) {
        FiveTuple {
            next_proto: data[offset + 6],
            l3_src: be_field(data, offset + 8, 16) as u128,
            l3_dst: be_field(data, offset + 24, 16) as u128,
            ..before
        }
    } else {
        before
    }
}

/// Where the transport header starts behind the IPv6 header at `offset`:
/// 40 bytes further on, whatever the header holds. Extension headers are
/// not walked.
pub open spec fn ipv6_next(data: Seq<u8>, offset: int) -> Option<int> {
    if holds(data, offset, IPV6_HEADER_LEN as int) {
        Some(offset + IPV6_HEADER_LEN)
    } else {
        None
    }
}

/// Whether a transport protocol starts its header with two port numbers
/// that this library reads.
pub open spec fn carries_ports(proto: u8) -> bool {
    proto == TCP || proto == UDP
}

/// `before` with the two ports of the transport header at `next`, if there
/// is a transport header, its protocol carries ports and its first four
/// bytes are present.
pub open spec fn with_ports(data: Seq<u8>, next: Option<int>, before: FiveTuple) -> FiveTuple {
    match next {
        Some(at) => if carries_ports(before.next_proto) && holds(data, at, 4) {
            FiveTuple {
                l4_sport: be_field(data, at, 2) as u16,
                l4_dport: be_field(data, at + 2, 2) as u16,
                ..before
            }
        } else {
            before
        },
        None => before,
    }
}

/// The offset as a mathematical integer.
pub open spec fn offset_of(next: Option<usize>) -> Option<int> {
    match next {
        Some(at) => Some(at as int),
        None => None,
    }
}

/// The identity of the flow that a frame belongs to.
pub open spec fn frame_key(data: Seq<u8>) -> FiveTuple {
    let ether = frame_ethertype(data);
    let tagged = FiveTuple { ether: ether, ..FiveTuple::blank() };
    match ether {
        Ethertype::IPV4 => with_ports(
            data,
            ipv4_next(data, LINK_HEADER_LEN as int),
            ipv4_parsed(data, LINK_HEADER_LEN as int, tagged),
        ),
        Ethertype::IPV6 => with_ports(
            data,
            ipv6_next(data, LINK_HEADER_LEN as int),
            ipv6_parsed(data, LINK_HEADER_LEN as int, tagged),
        ),
        Ethertype::UNKNOWN => tagged,
    }
}

/// A field of two bytes is 256 times the first byte plus the second.
pub proof fn lemma_field_of_two(data: Seq<u8>, at: int)
    requires
        holds(data, at, 2),
    ensures
        be_field(data, at, 2) == 256 * data[at] + data[at + 1],
        be_field(data, at, 2) < 0x1_0000,
{
    reveal_with_fuel(be_value, 3);
    let field = data.subrange(at, at + 2);
    assert(field.drop_last().drop_last().len() == 0);
    assert(field.drop_last().last() == data[at]);
    assert(field.last() == data[at + 1]);
}

/// The transport header starts behind the IPv4 header as long as the
/// header says it is: 20 bytes on when the header-length field is 5, 60
/// bytes on when it is 15, four times the field in general.
pub proof fn lemma_ipv4_next_offset(data: Seq<u8>, offset: int)
    requires
        holds(data, offset, 20),
    ensures
        data[offset] % 16 == 5 ==> ipv4_next(data, offset) == Some(offset + 20),
        data[offset] % 16 == 15 && holds(data, offset, 60) ==> ipv4_next(data, offset) == Some(
            offset + 60,
        ),
        holds(data, offset, 4 * (data[offset] % 16)) ==> ipv4_next(data, offset) == Some(
            offset + 4 * (data[offset] % 16),
        ),
{
}

/// The transport header starts 40 bytes behind the start of an IPv6
/// header, whatever the header holds.
pub proof fn lemma_ipv6_next_offset(data: Seq<u8>, offset: int)
    requires
        holds(data, offset, 40),
    ensures
        ipv6_next(data, offset) == Some(offset + 40),
{
}

/// For TCP and UDP the ports are the two 16-bit fields at the start of the
/// transport header; for every other protocol the tuple stays as it was.
pub proof fn lemma_ports_by_protocol(data: Seq<u8>, at: int, before: FiveTuple)
    requires
        holds(data, at, 4),
    ensures
        carries_ports(before.next_proto) ==> {
            &&& with_ports(data, Some(at), before).l4_sport == 256 * data[at] + data[at + 1]
            &&& with_ports(data, Some(at), before).l4_dport == 256 * data[at + 2] + data[at + 3]
        },
        !carries_ports(before.next_proto) ==> with_ports(data, Some(at), before) == before,
{
    lemma_field_of_two(data, at);
    lemma_field_of_two(data, at + 2);
}

/// A frame whose protocol is neither TCP nor UDP has both ports zero, and
/// so has a frame in which no transport header was found.
pub proof fn lemma_ports_stay_zero(data: Seq<u8>)
    ensures
        !carries_ports(frame_key(data).next_proto) ==> {
            &&& frame_key(data).l4_sport == 0
            &&& frame_key(data).l4_dport == 0
        },
        frame_ethertype(data) == Ethertype::UNKNOWN ==> frame_key(data) == (FiveTuple {
            ether: Ethertype::UNKNOWN,
            ..FiveTuple::blank()
        }),
{
}

/// Classifies the frame by the ethertype in its link header.
pub fn get_ethertype(data: &[u8]) -> (tag: Ethertype)
    ensures
        tag == frame_ethertype(data@),
{
    if data.len() < LINK_HEADER_LEN {
        return Ethertype::UNKNOWN;
    }
    let value = read_be(data, ETHERTYPE_AT, 2);
    proof {
        reveal_with_fuel(pow256, 3);
    }
    to_ethertype(value as u16)
}

/// Reads the IPv4 header at `offset` into `fivetuple` and returns where the
/// transport header starts.
pub fn handle_ipv4(data: &[u8], offset: usize, fivetuple: &mut FiveTuple) -> (next: Option<usize>)
    ensures
        *final(fivetuple) == ipv4_parsed(data@, offset as int, *old(fivetuple)),
        offset_of(next) == ipv4_next(data@, offset as int),
        next matches Some(at) ==> at == offset + 4 * (data@[offset as int] % 16) && at <= data@.len(),
        holds(data@, offset as int, 20) && data@[offset as int] % 16 == 5 ==> next == Some(
            (offset + 20) as usize,
        ),
        holds(data@, offset as int, 60) && data@[offset as int] % 16 == 15 ==> next == Some(
            (offset + 60) as usize,
        ),
{
    if data.len() < IPV4_FIXED_LEN || offset > data.len() - IPV4_FIXED_LEN {
        return None;
    }
    let ihl: usize = (data[offset] % 16) as usize * 4;
    let src = read_be(data, offset + 12, 4);
    let dst = read_be(data, offset + 16, 4);
    fivetuple.next_proto = data[offset + 9];
    fivetuple.l3_src = src;
    fivetuple.l3_dst = dst;
    if ihl > data.len() - offset {
        None
    } else {
        Some(offset + ihl)
    }
}

/// Reads the IPv6 base header at `offset` into `fivetuple` and returns
/// where the transport header starts.
pub fn handle_ipv6(data: &[u8], offset: usize, fivetuple: &mut FiveTuple) -> (next: Option<usize>)
    ensures
        *final(fivetuple) == ipv6_parsed(data@, offset as int, *old(fivetuple)),
        offset_of(next) == ipv6_next(data@, offset as int),
        holds(data@, offset as int, 40) ==> next == Some((offset + 40) as usize),
        !holds(data@, offset as int, 40) ==> next is None,
{
    if data.len() < IPV6_HEADER_LEN || offset > data.len() - IPV6_HEADER_LEN {
        return None;
    }
    let src = read_be(data, offset + 8, 16);
    let dst = read_be(data, offset + 24, 16);
    fivetuple.next_proto = data[offset + 6];
    fivetuple.l3_src = src;
    fivetuple.l3_dst = dst;
    Some(offset + IPV6_HEADER_LEN)
}

/// Reads nothing: a frame of unknown ethertype has no transport header that
/// could be found.
pub fn handle_unknown(_data: &[u8], _offset: usize, fivetuple: &mut FiveTuple) -> (next: Option<
    usize,
>)
    ensures
        *final(fivetuple) == *old(fivetuple),
        next is None,
{
    None
}

/// Reads the source and destination port at `next` into `fivetuple` when
/// its protocol is TCP or UDP. Without a transport header, with another
/// protocol, or with a frame that ends before the ports do, `fivetuple` is
/// left as it is.
pub fn extract_ports(data: &[u8], next: Option<usize>, fivetuple: &mut FiveTuple)
    ensures
        *final(fivetuple) == with_ports(data@, offset_of(next), *old(fivetuple)),
        next is None || !carries_ports(old(fivetuple).next_proto) ==> *final(fivetuple) == *old(
            fivetuple,
        ),
{
    match next {
        Some(at) => {
            let proto = fivetuple.next_proto;
            if (proto == TCP || proto == UDP) && data.len() >= 4 && at <= data.len() - 4 {
                let sport = read_be(data, at, 2);
                let dport = read_be(data, at + 2, 2);
                proof {
                    reveal_with_fuel(pow256, 3);
                }
                fivetuple.l4_sport = sport as u16;
                fivetuple.l4_dport = dport as u16;
            }
        },
        None => {},
    }
}

impl FiveTuple {
    /// The identity of the flow that the frame `data` belongs to: the
    /// ethertype, then the network-layer header that the ethertype
    /// announces, then the ports.
    pub fn from_frame(data: &[u8]) -> (tuple: FiveTuple)
        ensures
            tuple == frame_key(data@),
            tuple.ether == frame_ethertype(data@),
            !carries_ports(tuple.next_proto) ==> tuple.l4_sport == 0 && tuple.l4_dport == 0,
    {
        let mut fivetuple = FiveTuple::new();
        fivetuple.ether = get_ethertype(data);
        let next = match fivetuple.ether {
            Ethertype::IPV4 => handle_ipv4(data, LINK_HEADER_LEN, &mut fivetuple),
            Ethertype::IPV6 => handle_ipv6(data, LINK_HEADER_LEN, &mut fivetuple),
            Ethertype::UNKNOWN => handle_unknown(data, LINK_HEADER_LEN, &mut fivetuple),
        };
        extract_ports(data, next, &mut fivetuple);
        fivetuple
    }
}

} // verus!
