//! Big-endian fields: the number that a run of bytes stands for, and the
//! bytes that stand for a number.

use vstd::prelude::*;

verus! {

/// 256 to the power `n`.
pub open spec fn pow256(n: nat) -> nat
    decreases n,
{
    if n == 0 {
        1
    } else {
        256 * pow256((n - 1) as nat)
    }
}

/// The number whose big-endian representation is `bytes`.
pub open spec fn be_value(bytes: Seq<u8>) -> nat
    decreases bytes.len(),
{
    if bytes.len() == 0 {
        0
    } else {
        be_value(bytes.drop_last()) * 256 + bytes.last() as nat
    }
}

/// The `n` least significant bytes of `v`, most significant first.
pub open spec fn be_bytes(v: nat, n: nat) -> Seq<u8>
    decreases n,
{
    if n == 0 {
        Seq::empty()
    } else {
        be_bytes(v / 256, (n - 1) as nat).push((v % 256) as u8)
    }
}

/// The big-endian field of `n` bytes that starts at `at`.
pub open spec fn be_field(data: Seq<u8>, at: int, n: int) -> nat {
    be_value(data.subrange(at, at + n))
}

pub proof fn lemma_pow256_increases(a: nat, b: nat)
    requires
        a <= b,
    ensures
        pow256(a) <= pow256(b),
        pow256(a) >= 1,
    decreases b,
{
    if a == 0 {
        if b > 0 {
            lemma_pow256_increases(0, (b - 1) as nat);
        }
    } else {
        lemma_pow256_increases((a - 1) as nat, (b - 1) as nat);
    }
}

/// The powers of 256 that bound a field of 4, 15 and 16 bytes; the last is
/// 2 to the power 128.
pub proof fn lemma_pow256_values()
    ensures
        pow256(4) == 0x1_0000_0000,
        pow256(15) == 0x100_0000_0000_0000_0000_0000_0000_0000,
        pow256(16) == 0x1_0000_0000_0000_0000_0000_0000_0000_0000,
{
    reveal_with_fuel(pow256, 17);
}

/// A field of `n` bytes holds a number below 256 to the power `n`.
pub proof fn lemma_be_value_bound(bytes: Seq<u8>)
    ensures
        be_value(bytes) < pow256(bytes.len()),
    decreases bytes.len(),
{
    if bytes.len() > 0 {
        lemma_be_value_bound(bytes.drop_last());
    }
}

pub proof fn lemma_be_bytes_len(v: nat, n: nat)
    ensures
        be_bytes(v, n).len() == n,
    decreases n,
{
    if n > 0 {
        lemma_be_bytes_len(v / 256, (n - 1) as nat);
    }
}

/// Writing a field's number back in as many bytes gives the field's bytes.
pub proof fn lemma_bytes_of_value(bytes: Seq<u8>)
    ensures
        be_bytes(be_value(bytes), bytes.len()) == bytes,
    decreases bytes.len(),
{
    if bytes.len() > 0 {
        let front = bytes.drop_last();
        lemma_bytes_of_value(front);
        assert(be_value(bytes) / 256 == be_value(front));
        assert(be_value(bytes) % 256 == bytes.last() as nat);
        assert(front.push(bytes.last()) =~= bytes);
    }
}

/// Reading the `n` low bytes of a number gives the number modulo 256 to the
/// power `n`.
pub proof fn lemma_value_of_bytes(v: nat, n: nat)
    ensures
        be_value(be_bytes(v, n)) == v % pow256(n),
    decreases n,
{
    if n > 0 {
        let m = (n - 1) as nat;
        let front = be_bytes(v / 256, m);
        lemma_value_of_bytes(v / 256, m);
        lemma_pow256_increases(0, m);
        assert(be_bytes(v, n).drop_last() =~= front);
        lemma_mod_of_radix(v, pow256(m));
    }
}

/// Splitting off the lowest byte commutes with reduction modulo `256 * p`.
proof fn lemma_mod_of_radix(v: nat, p: nat)
    requires
        p > 0,
    ensures
        v % (256 * p) == ((v / 256) % p) * 256 + v % 256,
{
    let q = (v / 256) / p;
    let r = (v / 256) % p;
    assert(v / 256 == q * p + r) by (nonlinear_arith)
        requires
            q == (v / 256) / p,
            r == (v / 256) % p,
            p > 0,
    ;
    assert(v == (q * p + r) * 256 + v % 256);
    assert((q * p + r) * 256 == q * (256 * p) + r * 256) by (nonlinear_arith);
    let low = r * 256 + v % 256;
    assert(0 <= low < 256 * p) by (nonlinear_arith)
        requires
            0 <= r < p,
            low == r * 256 + v % 256,
            0 <= v % 256 < 256,
    ;
    assert(v == q * (256 * p) + low);
    vstd::arithmetic::div_mod::lemma_fundamental_div_mod_converse(
        v as int,
        (256 * p) as int,
        q as int,
        low as int,
    );
}

/// Reads the big-endian field of `n` bytes that starts at `at`.
pub(crate) fn read_be(data: &[u8], at: usize, n: usize) -> (value: u128)
    requires
        n <= 16,
        at + n <= data.len(),
    ensures
        value == be_field(data@, at as int, n as int),
        value < pow256(n as nat),
{
    let mut value: u128 = 0;
    let mut i: usize = 0;
    while i < n
        invariant
            i <= n <= 16,
            at + n <= data.len(),
            value == be_field(data@, at as int, i as int),
            value < pow256(i as nat),
        decreases n - i,
    {
        let byte = data[at + i];
        proof {
            let taken = data@.subrange(at as int, at + i + 1);
            assert(taken.drop_last() =~= data@.subrange(at as int, at + i));
            assert(taken.last() == byte);
            lemma_pow256_increases(i as nat, 15);
            lemma_pow256_values();
        }
        value = value * 256 + byte as u128;
        i = i + 1;
    }
    value
}

} // verus!
