//! Rendering of numbers, addresses and flows as text.

use vstd::prelude::*;
use vstd::string::StringExecFns;
use crate::endian::{
    be_bytes, be_value, lemma_be_bytes_len, lemma_be_value_bound, lemma_bytes_of_value,
    lemma_pow256_values, lemma_value_of_bytes,
};
use crate::ether::Ethertype;
use crate::flow::FiveTuple;

verus! {

/// The character of a digit below 16, lower case from ten on.
pub open spec fn digit_char(d: nat) -> char {
    seq!['0', '1', '2', '3', '4', '5', '6', '7', '8', '9', 'a', 'b', 'c', 'd', 'e', 'f'][d as int]
}

/// The decimal numeral of `n`, without leading zeros.
pub open spec fn decimal_text(n: nat) -> Seq<char>
    decreases n,
{
    if n < 10 {
        seq![digit_char(n)]
    } else {
        decimal_text(n / 10).push(digit_char(n % 10))
    }
}

/// The two lower-case hex digits of a byte.
pub open spec fn hex_byte(b: u8) -> Seq<char> {
    seq![digit_char((b / 16) as nat), digit_char((b % 16) as nat)]
}

/// The character of a digit below 16, upper case from ten on.
pub open spec fn upper_digit_char(d: nat) -> char {
    seq!['0', '1', '2', '3', '4', '5', '6', '7', '8', '9', 'A', 'B', 'C', 'D', 'E', 'F'][d as int]
}

/// The two upper-case hex digits of a byte.
pub open spec fn upper_hex_byte(b: u8) -> Seq<char> {
    seq![upper_digit_char((b / 16) as nat), upper_digit_char((b % 16) as nat)]
}

/// The texts in `parts`, in order, with `sep` between neighbours.
pub open spec fn joined(parts: Seq<Seq<char>>, sep: char) -> Seq<char>
    decreases parts.len(),
{
    if parts.len() == 0 {
        Seq::empty()
    } else if parts.len() == 1 {
        parts[0]
    } else {
        joined(parts.drop_last(), sep) + seq![sep] + parts.last()
    }
}

/// The decimal numeral of each byte.
pub open spec fn octets(bytes: Seq<u8>) -> Seq<Seq<char>> {
    Seq::new(bytes.len(), |i: int| decimal_text(bytes[i] as nat))
}

/// The four hex digits of each pair of bytes.
pub open spec fn hex_groups(bytes: Seq<u8>) -> Seq<Seq<char>> {
    Seq::new(bytes.len() / 2, |i: int| hex_byte(bytes[2 * i]) + hex_byte(bytes[2 * i + 1]))
}

/// Dotted-decimal notation of the low 32 bits of `addr`: four decimal
/// octets, most significant first, separated by dots.
pub open spec fn ipv4_text(addr: u128) -> Seq<char> {
    joined(octets(be_bytes(addr as nat, 4)), '.')
}

/// The 128 bits of `addr` as eight groups of four lower-case hex digits,
/// most significant first, separated by colons. Runs of zeros are written
/// out.
pub open spec fn ipv6_text(addr: u128) -> Seq<char> {
    joined(hex_groups(be_bytes(addr as nat, 16)), ':')
}

/// An address as its family writes it; empty for an unknown family.
pub open spec fn address_text(ether: Ethertype, addr: u128) -> Seq<char> {
    match ether {
        Ethertype::IPV4 => ipv4_text(addr),
        Ethertype::IPV6 => ipv6_text(addr),
        Ethertype::UNKNOWN => Seq::empty(),
    }
}

impl Ethertype {
    /// The tag's name.
    pub open spec fn name(self) -> Seq<char> {
        match self {
            Ethertype::IPV4 => seq!['I', 'P', 'V', '4'],
            Ethertype::IPV6 => seq!['I', 'P', 'V', '6'],
            Ethertype::UNKNOWN => seq!['U', 'N', 'K', 'N', 'O', 'W', 'N'],
        }
    }

    /// `<name> (0x<code>)`, the code in four upper-case hex digits.
    pub open spec fn text(self) -> Seq<char> {
        self.name() + seq![' ', '(', '0', 'x'] + upper_hex_byte((self.code() / 256) as u8)
            + upper_hex_byte((self.code() % 256) as u8) + seq![')']
    }
}

impl FiveTuple {
    /// `<src>:<sport> -> <dst>:<dport> (<proto>)`.
    pub open spec fn text(self) -> Seq<char> {
        let src = address_text(self.ether, self.l3_src);
        let dst = address_text(self.ether, self.l3_dst);
        let sport = decimal_text(self.l4_sport as nat);
        let dport = decimal_text(self.l4_dport as nat);
        let proto = decimal_text(self.next_proto as nat);
        src + seq![':'] + sport + seq![' ', '-', '>', ' '] + dst + seq![':'] + dport
            + seq![' ', '('] + proto + seq![')']
    }
}

fn digit_str(d: u8) -> (s: &'static str)
    requires
        d < 16,
    ensures
        s@ == seq![digit_char(d as nat)],
{
    proof {
        reveal_strlit("0");
        reveal_strlit("1");
        reveal_strlit("2");
        reveal_strlit("3");
        reveal_strlit("4");
        reveal_strlit("5");
        reveal_strlit("6");
        reveal_strlit("7");
        reveal_strlit("8");
        reveal_strlit("9");
        reveal_strlit("a");
        reveal_strlit("b");
        reveal_strlit("c");
        reveal_strlit("d");
        reveal_strlit("e");
        reveal_strlit("f");
    }
    let s = match d {
        0 => "0",
        1 => "1",
        2 => "2",
        3 => "3",
        4 => "4",
        5 => "5",
        6 => "6",
        7 => "7",
        8 => "8",
        9 => "9",
        10 => "a",
        11 => "b",
        12 => "c",
        13 => "d",
        14 => "e",
        _ => "f",
    };
    assert(s@ =~= seq![digit_char(d as nat)]);
    s
}

fn upper_digit_str(d: u8) -> (s: &'static str)
    requires
        d < 16,
    ensures
        s@ == seq![upper_digit_char(d as nat)],
{
    proof {
        reveal_strlit("A");
        reveal_strlit("B");
        reveal_strlit("C");
        reveal_strlit("D");
        reveal_strlit("E");
        reveal_strlit("F");
    }
    let s = match d {
        10 => "A",
        11 => "B",
        12 => "C",
        13 => "D",
        14 => "E",
        15 => "F",
        _ => digit_str(d),
    };
    assert(s@ =~= seq![upper_digit_char(d as nat)]);
    s
}

/// Appends the decimal numeral of `n`.
pub fn push_decimal(out: &mut String, n: u128)
    ensures
        final(out)@ == old(out)@ + decimal_text(n as nat),
    decreases n,
{
    if n >= 10 {
        push_decimal(out, n / 10);
    }
    out.append(digit_str((n % 10) as u8));
}

fn push_hex_byte(out: &mut String, b: u8)
    ensures
        final(out)@ == old(out)@ + hex_byte(b),
{
    out.append(digit_str(b / 16));
    out.append(digit_str(b % 16));
}

fn push_octets(out: &mut String, v: u128, n: u8)
    ensures
        final(out)@ == old(out)@ + joined(octets(be_bytes(v as nat, n as nat)), '.'),
    decreases n,
{
    if n == 0 {
        return ;
    }
    let ghost parts = octets(be_bytes(v as nat, n as nat));
    proof {
        lemma_be_bytes_len(v as nat, n as nat);
        lemma_be_bytes_len(v as nat / 256, (n - 1) as nat);
        assert(parts.drop_last() =~= octets(be_bytes(v as nat / 256, (n - 1) as nat)));
        assert(parts.last() == decimal_text((v % 256) as nat));
    }
    if n > 1 {
        push_octets(out, v / 256, n - 1);
        proof {
            reveal_strlit(".");
        }
        out.append(".");
        assert(out@ =~= old(out)@ + (joined(parts.drop_last(), '.') + seq!['.']));
    }
    push_decimal(out, v % 256);
}

fn push_hex_groups(out: &mut String, v: u128, n: u8)
    requires
        n <= 8,
    ensures
        final(out)@ == old(out)@ + joined(hex_groups(be_bytes(v as nat, 2 * n as nat)), ':'),
    decreases n,
{
    if n == 0 {
        proof {
            lemma_be_bytes_len(v as nat, 0);
        }
        return ;
    }
    let high: u8 = ((v / 256) % 256) as u8;
    let low: u8 = (v % 256) as u8;
    let ghost bytes = be_bytes(v as nat, 2 * n as nat);
    let ghost parts = hex_groups(bytes);
    proof {
        let rest = be_bytes(v as nat / 65536, (2 * n - 2) as nat);
        lemma_be_bytes_len(v as nat, 2 * n as nat);
        lemma_be_bytes_len(v as nat / 65536, (2 * n - 2) as nat);
        assert(be_bytes(v as nat / 256, (2 * n - 1) as nat) == rest.push(high));
        assert(bytes == rest.push(high).push(low));
        assert(parts.drop_last() =~= hex_groups(rest));
        assert(parts.last() == hex_byte(high) + hex_byte(low));
    }
    if n > 1 {
        push_hex_groups(out, v / 65536, n - 1);
        proof {
            reveal_strlit(":");
        }
        out.append(":");
        assert(out@ =~= old(out)@ + (joined(parts.drop_last(), ':') + seq![':']));
    }
    push_hex_byte(out, high);
    push_hex_byte(out, low);
}

/// Appends the dotted-decimal notation of the low 32 bits of `addr`.
pub fn v4_convert(addr: u128, formatted: &mut String)
    ensures
        final(formatted)@ == old(formatted)@ + ipv4_text(addr),
{
    push_octets(formatted, addr, 4);
}

/// Appends the eight hex groups of `addr`.
pub fn v6_convert(addr: u128, formatted: &mut String)
    ensures
        final(formatted)@ == old(formatted)@ + ipv6_text(addr),
{
    push_hex_groups(formatted, addr, 8);
}

fn push_address(out: &mut String, ether: Ethertype, addr: u128)
    ensures
        final(out)@ == old(out)@ + address_text(ether, addr),
{
    match ether {
        Ethertype::IPV4 => v4_convert(addr, out),
        Ethertype::IPV6 => v6_convert(addr, out),
        Ethertype::UNKNOWN => {},
    }
}

impl Ethertype {
    /// Renders the tag as its name and its number, as in `IPV4 (0x0800)`.
    pub fn render(&self) -> (line: String)
        ensures
            line@ == self.text(),
    {
        proof {
            reveal_strlit("IPV4");
            reveal_strlit("IPV6");
            reveal_strlit("UNKNOWN");
            reveal_strlit(" (0x");
            reveal_strlit(")");
        }
        let name = match self {
            Ethertype::IPV4 => "IPV4",
            Ethertype::IPV6 => "IPV6",
            Ethertype::UNKNOWN => "UNKNOWN",
        };
        assert(name@ =~= self.name());
        let code = self.value();
        let high: u8 = (code / 256) as u8;
        let low: u8 = (code % 256) as u8;
        let mut line = String::new();
        line.append(name);
        line.append(" (0x");
        line.append(upper_digit_str(high / 16));
        line.append(upper_digit_str(high % 16));
        line.append(upper_digit_str(low / 16));
        line.append(upper_digit_str(low % 16));
        line.append(")");
        assert(line@ =~= self.text());
        line
    }
}

impl FiveTuple {
    /// Renders the flow as `<src>:<sport> -> <dst>:<dport> (<proto>)`, the
    /// addresses in the notation of the flow's address family.
    pub fn render(&self) -> (line: String)
        ensures
            line@ == self.text(),
    {
        let mut line = String::new();
        proof {
            reveal_strlit(":");
            reveal_strlit(" -> ");
            reveal_strlit(" (");
            reveal_strlit(")");
        }
        push_address(&mut line, self.ether, self.l3_src);
        line.append(":");
        push_decimal(&mut line, self.l4_sport as u128);
        line.append(" -> ");
        assert(line@ =~= address_text(self.ether, self.l3_src) + seq![':'] + decimal_text(
            self.l4_sport as nat,
        ) + seq![' ', '-', '>', ' ']);
        push_address(&mut line, self.ether, self.l3_dst);
        line.append(":");
        push_decimal(&mut line, self.l4_dport as u128);
        line.append(" (");
        push_decimal(&mut line, self.next_proto as u128);
        line.append(")");
        assert(line@ =~= self.text());
        line
    }
}

/// Four texts joined are the four texts with three separators between
/// them.
pub proof fn lemma_joined_four(parts: Seq<Seq<char>>, sep: char)
    requires
        parts.len() == 4,
    ensures
        joined(parts, sep) == parts[0] + seq![sep] + parts[1] + seq![sep] + parts[2] + seq![sep]
            + parts[3],
{
    reveal_with_fuel(joined, 5);
    let three = parts.drop_last();
    let two = three.drop_last();
    let one = two.drop_last();
    assert(one[0] == parts[0]);
    assert(two.last() == parts[1]);
    assert(three.last() == parts[2]);
}

/// Dotted-decimal notation by arithmetic: the octets are the four lowest
/// digits of the address to the base 256.
pub proof fn lemma_ipv4_text_by_octets(addr: u128)
    ensures
        ipv4_text(addr) == decimal_text((addr as nat / 0x100_0000) % 256) + seq!['.']
            + decimal_text((addr as nat / 0x1_0000) % 256) + seq!['.'] + decimal_text(
            (addr as nat / 0x100) % 256,
        ) + seq!['.'] + decimal_text(addr as nat % 256),
{
    reveal_with_fuel(be_bytes, 5);
    lemma_be_bytes_len(addr as nat, 4);
    lemma_joined_four(octets(be_bytes(addr as nat, 4)), '.');
}

/// An IPv4 address that was read from four bytes is written as those four
/// bytes, in decimal, with dots between them.
pub proof fn lemma_ipv4_round_trip(bytes: Seq<u8>)
    requires
        bytes.len() == 4,
    ensures
        ipv4_text(be_value(bytes) as u128) == joined(octets(bytes), '.'),
        ipv4_text(be_value(bytes) as u128) == decimal_text(bytes[0] as nat) + seq!['.']
            + decimal_text(bytes[1] as nat) + seq!['.'] + decimal_text(bytes[2] as nat) + seq!['.']
            + decimal_text(bytes[3] as nat),
{
    lemma_be_value_bound(bytes);
    lemma_pow256_values();
    lemma_bytes_of_value(bytes);
    lemma_joined_four(octets(bytes), '.');
}

/// Eight texts joined are the eight texts with seven separators between
/// them.
pub proof fn lemma_joined_eight(parts: Seq<Seq<char>>, sep: char)
    requires
        parts.len() == 8,
    ensures
        joined(parts, sep) == parts[0] + seq![sep] + parts[1] + seq![sep] + parts[2] + seq![sep]
            + parts[3] + seq![sep] + parts[4] + seq![sep] + parts[5] + seq![sep] + parts[6]
            + seq![sep] + parts[7],
{
    let seven = parts.drop_last();
    let six = seven.drop_last();
    let five = six.drop_last();
    let four = five.drop_last();
    lemma_joined_four(four, sep);
    assert(joined(five, sep) == joined(four, sep) + seq![sep] + parts[4]);
    assert(joined(six, sep) == joined(five, sep) + seq![sep] + parts[5]);
    assert(joined(seven, sep) == joined(six, sep) + seq![sep] + parts[6]);
    assert(joined(parts, sep) == joined(seven, sep) + seq![sep] + parts[7]);
}

/// An IPv6 address that was read from sixteen bytes is written as those
/// sixteen bytes, two hex digits each, with a colon behind every second
/// byte but the last.
pub proof fn lemma_ipv6_round_trip(bytes: Seq<u8>)
    requires
        bytes.len() == 16,
    ensures
        ipv6_text(be_value(bytes) as u128) == joined(hex_groups(bytes), ':'),
        ({
            let group = |i: int| hex_byte(bytes[2 * i]) + hex_byte(bytes[2 * i + 1]);
            ipv6_text(be_value(bytes) as u128) == group(0) + seq![':'] + group(1) + seq![':']
                + group(2) + seq![':'] + group(3) + seq![':'] + group(4) + seq![':'] + group(5)
                + seq![':'] + group(6) + seq![':'] + group(7)
        }),
{
    lemma_be_value_bound(bytes);
    lemma_pow256_values();
    lemma_bytes_of_value(bytes);
    lemma_joined_eight(hex_groups(bytes), ':');
}

/// Dotted-decimal notation looks at the low 32 bits of an address only.
pub proof fn lemma_ipv4_text_of_low_bits(addr: u128)
    ensures
        ipv4_text(addr) == ipv4_text((addr % 0x1_0000_0000) as u128),
{
    let bytes = be_bytes(addr as nat, 4);
    lemma_be_bytes_len(addr as nat, 4);
    lemma_value_of_bytes(addr as nat, 4);
    lemma_bytes_of_value(bytes);
    lemma_pow256_values();
}

} // verus!
