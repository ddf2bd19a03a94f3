use flowtally::ether::Ethertype;
use flowtally::flow::FiveTuple;
use flowtally::parse::handle_ipv4;
use flowtally::text::{push_decimal, v4_convert, v6_convert};

fn decimal(n: u128) -> String {
    let mut out = String::new();
    push_decimal(&mut out, n);
    out
}

fn dotted(addr: u128) -> String {
    let mut out = String::new();
    v4_convert(addr, &mut out);
    out
}

fn groups(addr: u128) -> String {
    let mut out = String::new();
    v6_convert(addr, &mut out);
    out
}

#[test]
fn decimal_numerals_have_no_leading_zeros() {
    assert_eq!(decimal(0), "0");
    assert_eq!(decimal(7), "7");
    assert_eq!(decimal(9), "9");
    assert_eq!(decimal(10), "10");
    assert_eq!(decimal(99), "99");
    assert_eq!(decimal(100), "100");
    assert_eq!(decimal(255), "255");
    assert_eq!(decimal(65535), "65535");
    assert_eq!(decimal(1_000_000_007), "1000000007");
}

#[test]
fn decimal_numeral_of_the_largest_count() {
    assert_eq!(decimal(u128::MAX), "340282366920938463463374607431768211455");
    assert_eq!(decimal(u64::MAX as u128), u64::MAX.to_string());
}

#[test]
fn decimal_numerals_agree_with_the_standard_library() {
    let mut n: u128 = 1;
    for _ in 0..60 {
        assert_eq!(decimal(n), n.to_string());
        assert_eq!(decimal(n - 1), (n - 1).to_string());
        n = n * 4 + 3;
    }
}

#[test]
fn decimal_is_appended_to_what_is_there() {
    let mut out = String::from("count=");
    push_decimal(&mut out, 42);
    assert_eq!(out, "count=42");
}

#[test]
fn ipv4_address_renders_as_dotted_decimal() {
    assert_eq!(dotted(u32::from_be_bytes([192, 168, 1, 1]) as u128), "192.168.1.1");
    assert_eq!(dotted(0x0a000001), "10.0.0.1");
    assert_eq!(dotted(0), "0.0.0.0");
    assert_eq!(dotted(0xffffffff), "255.255.255.255");
    assert_eq!(dotted(0x01020304), "1.2.3.4");
}

#[test]
fn ipv4_rendering_uses_only_the_low_32_bits() {
    assert_eq!(dotted(0xdead_beef_c0a8_0101), "192.168.1.1");
    assert_eq!(dotted(u128::MAX), "255.255.255.255");
    assert_eq!(dotted(1u128 << 32), "0.0.0.0");
}

#[test]
fn ipv6_address_renders_as_eight_full_groups() {
    let mut bytes = [0u8; 16];
    bytes[15] = 1;
    assert_eq!(
        groups(u128::from_be_bytes(bytes)),
        "0000:0000:0000:0000:0000:0000:0000:0001"
    );
    assert_eq!(groups(0), "0000:0000:0000:0000:0000:0000:0000:0000");
    assert_eq!(groups(u128::MAX), "ffff:ffff:ffff:ffff:ffff:ffff:ffff:ffff");
    assert_eq!(
        groups(0x20010db8_85a30000_00008a2e_03707334),
        "2001:0db8:85a3:0000:0000:8a2e:0370:7334"
    );
    assert_eq!(
        groups(0x0123_4567_89ab_cdef_fedc_ba98_7654_3210),
        "0123:4567:89ab:cdef:fedc:ba98:7654:3210"
    );
}

#[test]
fn ipv6_rendering_is_lower_case() {
    let text = groups(0xABCD_EF00_0000_0000_0000_0000_0000_00AF);
    assert_eq!(text, "abcd:ef00:0000:0000:0000:0000:0000:00af");
    assert_eq!(text.len(), 39);
}

#[test]
fn addresses_are_appended_to_what_is_there() {
    let mut out = String::from("src=");
    v4_convert(0x7f000001, &mut out);
    out.push_str(" dst=");
    v6_convert(1, &mut out);
    assert_eq!(out, "src=127.0.0.1 dst=0000:0000:0000:0000:0000:0000:0000:0001");
}

#[test]
fn parsed_ipv4_address_renders_as_its_bytes() {
    let mut header = vec![0u8; 20];
    header[0] = 0x45;
    header[12..16].copy_from_slice(&[192, 168, 1, 1]);
    header[16..20].copy_from_slice(&[203, 0, 113, 254]);
    let mut tuple = FiveTuple::new();
    assert_eq!(handle_ipv4(&header, 0, &mut tuple), Some(20));
    assert_eq!(dotted(tuple.l3_src), "192.168.1.1");
    assert_eq!(dotted(tuple.l3_dst), "203.0.113.254");
}

#[test]
fn ipv4_flow_renders_with_dotted_addresses() {
    let tuple = FiveTuple {
        ether: Ethertype::IPV4,
        l3_src: 0x0a000001,
        l3_dst: 0x0a000002,
        next_proto: 6,
        l4_sport: 1234,
        l4_dport: 80,
    };
    assert_eq!(tuple.render(), "10.0.0.1:1234 -> 10.0.0.2:80 (6)");
}

#[test]
fn ipv6_flow_renders_with_hex_groups() {
    let tuple = FiveTuple {
        ether: Ethertype::IPV6,
        l3_src: 1,
        l3_dst: 0xfe800000_00000000_00000000_00000002,
        next_proto: 17,
        l4_sport: 5353,
        l4_dport: 65535,
    };
    assert_eq!(
        tuple.render(),
        "0000:0000:0000:0000:0000:0000:0000:0001:5353 -> \
         fe80:0000:0000:0000:0000:0000:0000:0002:65535 (17)"
    );
}

#[test]
fn unknown_flow_renders_with_empty_addresses() {
    assert_eq!(FiveTuple::new().render(), ":0 -> :0 (0)");
    let tuple = FiveTuple {
        ether: Ethertype::UNKNOWN,
        l3_src: 0x0a000001,
        l3_dst: 0x0a000002,
        next_proto: 255,
        l4_sport: 7,
        l4_dport: 9,
    };
    assert_eq!(tuple.render(), ":7 -> :9 (255)");
}

#[test]
fn same_number_renders_by_family() {
    let mut tuple = FiveTuple::new();
    tuple.l3_src = 0x01020304;
    tuple.l3_dst = 0x01020304;
    tuple.ether = Ethertype::IPV4;
    assert_eq!(tuple.render(), "1.2.3.4:0 -> 1.2.3.4:0 (0)");
    tuple.ether = Ethertype::IPV6;
    assert_eq!(
        tuple.render(),
        "0000:0000:0000:0000:0000:0000:0102:0304:0 -> \
         0000:0000:0000:0000:0000:0000:0102:0304:0 (0)"
    );
}
