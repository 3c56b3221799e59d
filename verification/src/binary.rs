//! Single-value binary serialization of bound values: little-endian for
//! integer-shaped values, IEEE-754 bit patterns for floats, UTF-8 for strings,
//! raw bytes for binary, minimal big-endian two's complement for decimals, and
//! 16-byte big-endian for UUIDs.
use vstd::prelude::*;

use crate::error::Error;
use crate::values::{spec_compatible, Datum, DatumV, LitV, PrimitiveLiteral, PrimitiveType};
use vstd::string::StrSliceExecFns;

verus! {

/// The unsigned 32-bit pattern that carries a signed 32-bit value.
pub open spec fn spec_u32_of_i32(v: i32) -> u32 {
    if v >= 0 {
        v as u32
    } else {
        (v + 0x1_0000_0000) as u32
    }
}

/// The unsigned 64-bit pattern that carries a signed 64-bit value.
pub open spec fn spec_u64_of_i64(v: i64) -> u64 {
    if v >= 0 {
        v as u64
    } else {
        (v + 0x1_0000_0000_0000_0000) as u64
    }
}

/// The signed value carried by an unsigned 32-bit pattern.
pub open spec fn spec_i32_of_u32(u: u32) -> i32 {
    if u < 0x8000_0000 {
        u as i32
    } else {
        (u - 0x1_0000_0000) as i32
    }
}

/// The signed value carried by an unsigned 64-bit pattern.
pub open spec fn spec_i64_of_u64(u: u64) -> i64 {
    if u < 0x8000_0000_0000_0000 {
        u as i64
    } else {
        (u - 0x1_0000_0000_0000_0000) as i64
    }
}

/// Little-endian bytes of a 32-bit pattern.
pub open spec fn spec_le4(x: u32) -> Seq<u8> {
    seq![
        (x % 256) as u8,
        ((x / 256) % 256) as u8,
        ((x / 0x10000) % 256) as u8,
        ((x / 0x1000000) % 256) as u8,
    ]
}

/// Little-endian bytes of a 64-bit pattern.
pub open spec fn spec_le8(x: u64) -> Seq<u8> {
    seq![
        (x % 256) as u8,
        ((x / 256) % 256) as u8,
        ((x / 0x10000) % 256) as u8,
        ((x / 0x1000000) % 256) as u8,
        ((x / 0x1_0000_0000) % 256) as u8,
        ((x / 0x100_0000_0000) % 256) as u8,
        ((x / 0x1_0000_0000_0000) % 256) as u8,
        ((x / 0x100_0000_0000_0000) % 256) as u8,
    ]
}

/// The 32-bit pattern read from four little-endian bytes.
pub open spec fn spec_u32_of_le(s: Seq<u8>) -> u32
    recommends
        s.len() == 4,
{
    (s[0] + 256 * (s[1] + 256 * (s[2] + 256 * s[3]))) as u32
}

/// The 64-bit pattern read from eight little-endian bytes.
pub open spec fn spec_u64_of_le(s: Seq<u8>) -> u64 {
    (s[0] + 256 * (s[1] + 256 * (s[2] + 256 * (s[3] + 256 * (s[4] + 256 * (s[5] + 256 * (s[6]
        + 256 * s[7]))))))) as u64
}

/// Reading back the little-endian bytes of a 32-bit pattern gives the pattern.
pub proof fn lemma_le4_roundtrip(x: u32)
    ensures
        spec_u32_of_le(spec_le4(x)) == x,
{
    assert(x % 256 + 256 * ((x / 256) % 256 + 256 * ((x / 0x10000) % 256 + 256 * ((x / 0x1000000)
        % 256))) == x) by (bit_vector);
}

/// Reading back the little-endian bytes of a 64-bit pattern gives the pattern.
pub proof fn lemma_le8_roundtrip(x: u64)
    ensures
        spec_u64_of_le(spec_le8(x)) == x,
{
    assert(x % 256 + 256 * ((x / 256) % 256 + 256 * ((x / 0x10000) % 256 + 256 * ((x / 0x1000000)
        % 256 + 256 * ((x / 0x1_0000_0000) % 256 + 256 * ((x / 0x100_0000_0000) % 256 + 256 * ((x
        / 0x1_0000_0000_0000) % 256 + 256 * ((x / 0x100_0000_0000_0000) % 256))))))) == x)
        by (bit_vector);
}

/// The unsigned 32-bit pattern that carries a signed value.
pub fn u32_of_i32(v: i32) -> (r: u32)
    ensures
        r == spec_u32_of_i32(v),
{
    if v >= 0 {
        v as u32
    } else {
        ((v as i64) + 0x1_0000_0000) as u32
    }
}

/// The unsigned 64-bit pattern that carries a signed value.
pub fn u64_of_i64(v: i64) -> (r: u64)
    ensures
        r == spec_u64_of_i64(v),
{
    if v >= 0 {
        v as u64
    } else {
        ((v as i128) + 0x1_0000_0000_0000_0000) as u64
    }
}

/// The signed value carried by an unsigned 32-bit pattern.
pub fn i32_of_u32(u: u32) -> (r: i32)
    ensures
        r == spec_i32_of_u32(u),
{
    if u < 0x8000_0000 {
        u as i32
    } else {
        ((u as i64) - 0x1_0000_0000) as i32
    }
}

/// The signed value carried by an unsigned 64-bit pattern.
pub fn i64_of_u64(u: u64) -> (r: i64)
    ensures
        r == spec_i64_of_u64(u),
{
    if u < 0x8000_0000_0000_0000 {
        u as i64
    } else {
        ((u as i128) - 0x1_0000_0000_0000_0000) as i64
    }
}

/// Round-tripping a signed 32-bit value through its pattern is the identity.
pub proof fn lemma_i32_pattern_roundtrip(v: i32)
    ensures
        spec_i32_of_u32(spec_u32_of_i32(v)) == v,
{
}

/// Round-tripping a signed 64-bit value through its pattern is the identity.
pub proof fn lemma_i64_pattern_roundtrip(v: i64)
    ensures
        spec_i64_of_u64(spec_u64_of_i64(v)) == v,
{
}

/// Push the four little-endian bytes of a 32-bit pattern.
fn push_le4(out: &mut Vec<u8>, x: u32)
    ensures
        final(out)@ == old(out)@ + spec_le4(x),
{
    out.push((x % 256) as u8);
    out.push(((x / 256) % 256) as u8);
    out.push(((x / 0x10000) % 256) as u8);
    out.push(((x / 0x1000000) % 256) as u8);
    assert(out@ =~= old(out)@ + spec_le4(x));
}

/// Push the eight little-endian bytes of a 64-bit pattern.
fn push_le8(out: &mut Vec<u8>, x: u64)
    ensures
        final(out)@ == old(out)@ + spec_le8(x),
{
    out.push((x % 256) as u8);
    out.push(((x / 256) % 256) as u8);
    out.push(((x / 0x10000) % 256) as u8);
    out.push(((x / 0x1000000) % 256) as u8);
    out.push(((x / 0x1_0000_0000) % 256) as u8);
    out.push(((x / 0x100_0000_0000) % 256) as u8);
    out.push(((x / 0x1_0000_0000_0000) % 256) as u8);
    out.push(((x / 0x100_0000_0000_0000) % 256) as u8);
    assert(out@ =~= old(out)@ + spec_le8(x));
}

/// Read a 32-bit pattern from four little-endian bytes.
fn u32_of_le(s: &Vec<u8>) -> (r: u32)
    requires
        s@.len() == 4,
    ensures
        r == spec_u32_of_le(s@),
{
    s[0] as u32 + 256 * (s[1] as u32 + 256 * (s[2] as u32 + 256 * (s[3] as u32)))
}

/// Read a 64-bit pattern from eight little-endian bytes.
fn u64_of_le(s: &Vec<u8>) -> (r: u64)
    requires
        s@.len() == 8,
    ensures
        r == spec_u64_of_le(s@),
{
    s[0] as u64 + 256 * (s[1] as u64 + 256 * (s[2] as u64 + 256 * (s[3] as u64 + 256 * (
    s[4] as u64 + 256 * (s[5] as u64 + 256 * (s[6] as u64 + 256 * (s[7] as u64)))))))
}

/// The n-th power of 256.
pub open spec fn pow256(n: nat) -> int
    decreases n,
{
    if n == 0 {
        1
    } else {
        256 * pow256((n - 1) as nat)
    }
}

/// Powers of 256 grow monotonically.
pub proof fn lemma_pow256_le(a: nat, b: nat)
    requires
        a <= b,
    ensures
        pow256(a) <= pow256(b),
        pow256(a) >= 1,
    decreases b,
{
    if a < b {
        lemma_pow256_le(a, (b - 1) as nat);
    } else if b > 0 {
        lemma_pow256_le((a - 1) as nat, (b - 1) as nat);
    }
}

/// The n-th power of 10.
pub open spec fn pow10(n: nat) -> int
    decreases n,
{
    if n == 0 {
        1
    } else {
        10 * pow10((n - 1) as nat)
    }
}

/// Powers of 10 grow monotonically.
pub proof fn lemma_pow10_le(a: nat, b: nat)
    requires
        a <= b,
    ensures
        pow10(a) <= pow10(b),
        pow10(a) >= 1,
    decreases b,
{
    if a < b {
        lemma_pow10_le(a, (b - 1) as nat);
    } else if b > 0 {
        lemma_pow10_le((a - 1) as nat, (b - 1) as nat);
    }
}

/// Exact values of the powers of 10 that the digit parser needs.
pub proof fn lemma_pow10_values()
    ensures
        pow10(18) == 1_000_000_000_000_000_000,
        pow10(19) == 10_000_000_000_000_000_000,
    decreases 0nat,
{
    reveal_with_fuel(pow10, 20);
}

/// The unsigned 128-bit pattern that carries a signed 128-bit value.
pub open spec fn spec_u128_of_i128(v: i128) -> u128 {
    if v >= 0 {
        v as u128
    } else {
        (v + 0x1_0000_0000_0000_0000_0000_0000_0000_0000) as u128
    }
}

/// The signed value carried by an unsigned 128-bit pattern.
pub open spec fn spec_i128_of_u128(u: u128) -> i128 {
    if u < 0x8000_0000_0000_0000_0000_0000_0000_0000 {
        u as i128
    } else {
        (u - 0x1_0000_0000_0000_0000_0000_0000_0000_0000) as i128
    }
}

/// Exact values of the large powers of 256 that the codec needs.
pub proof fn lemma_pow256_values()
    ensures
        pow256(14) == 0x1_0000_0000_0000_0000_0000_0000_0000,
        pow256(15) == 0x100_0000_0000_0000_0000_0000_0000_0000,
        pow256(16) == 0x1_0000_0000_0000_0000_0000_0000_0000_0000,
{
    reveal_with_fuel(pow256, 17);
}

/// The unsigned 128-bit pattern that carries a signed value.
pub fn u128_of_i128(v: i128) -> (r: u128)
    ensures
        r == spec_u128_of_i128(v),
{
    if v >= 0 {
        v as u128
    } else {
        0xffff_ffff_ffff_ffff_ffff_ffff_ffff_ffff - ((-(v + 1)) as u128)
    }
}

/// The signed value carried by an unsigned 128-bit pattern.
pub fn i128_of_u128(u: u128) -> (r: i128)
    ensures
        r == spec_i128_of_u128(u),
{
    if u < 0x8000_0000_0000_0000_0000_0000_0000_0000 {
        u as i128
    } else {
        -1i128 - ((0xffff_ffff_ffff_ffff_ffff_ffff_ffff_ffff - u) as i128)
    }
}

/// The big-endian bytes of the lowest `n` bytes of a 128-bit pattern.
pub open spec fn spec_be_n(u: u128, n: nat) -> Seq<u8>
    decreases n,
{
    if n == 0 {
        Seq::empty()
    } else {
        spec_be_n(u / 256, (n - 1) as nat) + seq![(u % 256) as u8]
    }
}

/// The unsigned integer read from big-endian bytes.
pub open spec fn spec_be_uint(s: Seq<u8>) -> int
    decreases s.len(),
{
    if s.len() == 0 {
        0
    } else {
        spec_be_uint(s.drop_last()) * 256 + s.last()
    }
}

/// The two's-complement signed integer read from big-endian bytes.
pub open spec fn spec_be_sint(s: Seq<u8>) -> int
    recommends
        s.len() >= 1,
{
    spec_be_uint(s) - if s[0] >= 0x80 {
        pow256(s.len())
    } else {
        0
    }
}

/// Lengths of big-endian renderings.
pub proof fn lemma_be_n_len(u: u128, n: nat)
    ensures
        spec_be_n(u, n).len() == n,
    decreases n,
{
    if n > 0 {
        lemma_be_n_len(u / 256, (n - 1) as nat);
    }
}

/// Reading back the `n` big-endian bytes of a pattern gives the pattern modulo 256^n.
pub proof fn lemma_be_n_uint(u: u128, n: nat)
    ensures
        spec_be_uint(spec_be_n(u, n)) == (u as int) % pow256(n),
    decreases n,
{
    lemma_be_n_len(u, n);
    if n == 0 {
        assert((u as int) % 1 == 0) by {
            vstd::arithmetic::div_mod::lemma_mod_division_less_than_divisor(u as int, 1);
        }
    } else {
        let s = spec_be_n(u, n);
        lemma_be_n_len(u / 256, (n - 1) as nat);
        assert(s.drop_last() =~= spec_be_n(u / 256, (n - 1) as nat));
        assert(s.last() == (u % 256) as u8);
        lemma_be_n_uint(u / 256, (n - 1) as nat);
        assert(spec_be_uint(s) == (((u / 256) as int) % pow256((n - 1) as nat)) * 256 + (u as int)
            % 256);
        lemma_pow256_le(0, (n - 1) as nat);
        vstd::arithmetic::div_mod::lemma_breakdown(u as int, 256, pow256((n - 1) as nat));
        assert(pow256(n) == 256 * pow256((n - 1) as nat));
    }
}

/// Big-endian values decompose at the first byte.
pub proof fn lemma_be_uint_first(s: Seq<u8>)
    requires
        s.len() >= 1,
    ensures
        spec_be_uint(s) == s[0] * pow256((s.len() - 1) as nat) + spec_be_uint(s.drop_first()),
    decreases s.len(),
{
    if s.len() == 1 {
        assert(s.drop_first() =~= Seq::<u8>::empty());
        assert(s.drop_last() =~= Seq::<u8>::empty());
    } else {
        lemma_be_uint_first(s.drop_last());
        assert(s.drop_last().drop_first() =~= s.drop_first().drop_last());
        assert(s.drop_last()[0] == s[0]);
        assert(s.drop_first().last() == s.last());
        assert(spec_be_uint(s) == spec_be_uint(s.drop_last()) * 256 + s.last());
        assert(spec_be_uint(s.drop_last()) == s[0] * pow256((s.len() - 2) as nat) + spec_be_uint(
            s.drop_first().drop_last(),
        ));
        assert(spec_be_uint(s.drop_first()) == spec_be_uint(s.drop_first().drop_last()) * 256
            + s.last());
        assert(s[0] * pow256((s.len() - 2) as nat) * 256 == s[0] * pow256((s.len() - 1) as nat))
            by {
            assert(pow256((s.len() - 1) as nat) == 256 * pow256((s.len() - 2) as nat));
            vstd::arithmetic::mul::lemma_mul_is_associative(
                s[0] as int,
                pow256((s.len() - 2) as nat),
                256,
            );
            vstd::arithmetic::mul::lemma_mul_is_commutative(pow256((s.len() - 2) as nat), 256);
        }
    }
}

/// Non-negative bound of big-endian values.
pub proof fn lemma_be_uint_bound(s: Seq<u8>)
    ensures
        0 <= spec_be_uint(s) < pow256(s.len()),
    decreases s.len(),
{
    if s.len() == 0 {
    } else {
        lemma_be_uint_bound(s.drop_last());
        assert(pow256(s.len()) == 256 * pow256((s.len() - 1) as nat));
    }
}

/// The minimal two's-complement rendering: leading bytes that repeat the sign
/// are dropped while the value they spell stays the same.
pub open spec fn spec_trim_signed(s: Seq<u8>) -> Seq<u8>
    decreases s.len(),
{
    if s.len() >= 2 && ((s[0] == 0 && s[1] < 0x80) || (s[0] == 0xff && s[1] >= 0x80)) {
        spec_trim_signed(s.drop_first())
    } else {
        s
    }
}

/// Trimming keeps at least one byte and never grows the sequence.
pub proof fn lemma_trim_signed_len(s: Seq<u8>)
    requires
        s.len() >= 1,
    ensures
        1 <= spec_trim_signed(s).len() <= s.len(),
    decreases s.len(),
{
    if s.len() >= 2 && ((s[0] == 0 && s[1] < 0x80) || (s[0] == 0xff && s[1] >= 0x80)) {
        lemma_trim_signed_len(s.drop_first());
    }
}

/// Trimming preserves the signed value.
pub proof fn lemma_trim_signed_value(s: Seq<u8>)
    requires
        s.len() >= 1,
    ensures
        spec_be_sint(spec_trim_signed(s)) == spec_be_sint(s),
    decreases s.len(),
{
    if s.len() >= 2 && ((s[0] == 0 && s[1] < 0x80) || (s[0] == 0xff && s[1] >= 0x80)) {
        let rest = s.drop_first();
        lemma_trim_signed_value(rest);
        lemma_be_uint_first(s);
        assert(rest[0] == s[1]);
        if s[0] == 0 {
            assert(spec_be_sint(s) == spec_be_uint(rest));
            assert(spec_be_sint(rest) == spec_be_uint(rest));
        } else {
            assert(spec_be_uint(s) == 255 * pow256((s.len() - 1) as nat) + spec_be_uint(rest));
            assert(pow256(s.len()) == 256 * pow256((s.len() - 1) as nat));
            assert(spec_be_sint(s) == spec_be_uint(rest) - pow256((rest.len()) as nat));
            assert(spec_be_sint(rest) == spec_be_uint(rest) - pow256(rest.len()));
        }
    }
}

/// The minimal big-endian two's-complement bytes of a 128-bit signed value.
pub open spec fn spec_decimal_bytes(v: i128) -> Seq<u8> {
    spec_trim_signed(spec_be_n(spec_u128_of_i128(v), 16))
}

/// The signed value read back from minimal big-endian bytes, when the length
/// is in range.
pub open spec fn spec_decimal_of_bytes(s: Seq<u8>) -> Option<i128> {
    if 1 <= s.len() <= 16 {
        Some(spec_be_sint(s) as i128)
    } else {
        None
    }
}

/// The big-endian bytes of the lowest `n` bytes of a pattern, executable.
fn be_n_bytes(u: u128, n: usize) -> (r: Vec<u8>)
    ensures
        r@ == spec_be_n(u, n as nat),
    decreases n,
{
    if n == 0 {
        let r: Vec<u8> = Vec::new();
        assert(r@ =~= spec_be_n(u, 0));
        r
    } else {
        let mut r = be_n_bytes(u / 256, n - 1);
        r.push((u % 256) as u8);
        assert(r@ =~= spec_be_n(u, n as nat));
        r
    }
}

/// Drop leading sign-repeating bytes, executable.
fn trim_signed(s: Vec<u8>) -> (r: Vec<u8>)
    requires
        s@.len() >= 1,
    ensures
        r@ == spec_trim_signed(s@),
{
    let n = s.len();
    let mut i: usize = 0;
    proof {
        assert(s@.skip(0) =~= s@);
    }
    while i + 1 < n && ((s[i] == 0 && s[i + 1] < 0x80) || (s[i] == 0xff && s[i + 1] >= 0x80))
        invariant
            n == s@.len(),
            i < n,
            spec_trim_signed(s@) == spec_trim_signed(s@.skip(i as int)),
        decreases s@.len() - i,
    {
        proof {
            assert(s@.skip(i as int)[0] == s@[i as int]);
            assert(s@.skip(i as int)[1] == s@[i + 1]);
            assert(s@.skip(i as int).drop_first() =~= s@.skip(i + 1));
        }
        i = i + 1;
    }
    proof {
        assert(s@.skip(i as int)[0] == s@[i as int]);
        if i + 1 < s@.len() {
            assert(s@.skip(i as int)[1] == s@[i + 1]);
        }
        assert(spec_trim_signed(s@.skip(i as int)) == s@.skip(i as int));
    }
    let mut out: Vec<u8> = Vec::new();
    let mut j: usize = i;
    while j < s.len()
        invariant
            i <= j <= s@.len(),
            out@ =~= s@.subrange(i as int, j as int),
        decreases s@.len() - j,
    {
        out.push(s[j]);
        j = j + 1;
    }
    assert(out@ =~= s@.skip(i as int));
    out
}

/// Encode a 128-bit signed value as minimal big-endian two's complement.
pub fn decimal_to_bytes(v: i128) -> (r: Vec<u8>)
    ensures
        r@ == spec_decimal_bytes(v),
{
    let u = u128_of_i128(v);
    let full = be_n_bytes(u, 16);
    proof {
        lemma_be_n_len(u, 16);
    }
    trim_signed(full)
}

/// The n-th power of 256, executable for small exponents.
fn pow256_exec(n: usize) -> (r: u128)
    requires
        n <= 15,
    ensures
        r as int == pow256(n as nat),
    decreases n,
{
    if n == 0 {
        1
    } else {
        let prev = pow256_exec(n - 1);
        proof {
            lemma_pow256_le((n - 1) as nat, 14);
            lemma_pow256_values();
        }
        prev * 256
    }
}

/// Decode a 128-bit signed value from minimal big-endian two's complement.
pub fn decimal_of_bytes(s: &Vec<u8>) -> (r: Option<i128>)
    ensures
        r == spec_decimal_of_bytes(s@),
{
    let n = s.len();
    if n < 1 || n > 16 {
        return None;
    }
    let mut u: u128 = 0;
    let mut i: usize = 0;
    proof {
        assert(s@.take(0) =~= Seq::<u8>::empty());
    }
    while i < n
        invariant
            i <= n,
            n == s@.len(),
            1 <= n <= 16,
            u == spec_be_uint(s@.take(i as int)),
            u < pow256(i as nat),
        decreases n - i,
    {
        proof {
            lemma_pow256_values();
            lemma_pow256_le((i + 1) as nat, 16);
            assert(pow256((i + 1) as nat) == 256 * pow256(i as nat));
            assert(u * 256 + s@[i as int] < pow256((i + 1) as nat)) by {
                assert(u <= pow256(i as nat) - 1);
                vstd::arithmetic::mul::lemma_mul_inequality(u as int, pow256(i as nat) - 1, 256);
            }
            assert(s@.take(i + 1).drop_last() =~= s@.take(i as int));
            assert(s@.take(i + 1).last() == s@[i as int]);
        }
        u = u * 256 + (s[i] as u128);
        i = i + 1;
    }
    proof {
        assert(s@.take(n as int) =~= s@);
        lemma_be_uint_first(s@);
        lemma_be_uint_bound(s@.drop_first());
        assert(s@.drop_first().len() == n - 1);
    }
    if n == 16 {
        proof {
            lemma_pow256_values();
            if s@[0] >= 0x80 {
                assert(s@[0] * pow256(15) >= 0x80 * pow256(15)) by {
                    vstd::arithmetic::mul::lemma_mul_inequality(0x80, s@[0] as int, pow256(15));
                }
                assert(0x80 * pow256(15) == 0x8000_0000_0000_0000_0000_0000_0000_0000)
                   ;
            } else {
                assert(s@[0] * pow256(15) <= 0x7f * pow256(15)) by {
                    vstd::arithmetic::mul::lemma_mul_inequality(s@[0] as int, 0x7f, pow256(15));
                }
                assert(0x7f * pow256(15) + pow256(15) == 0x8000_0000_0000_0000_0000_0000_0000_0000)
                   ;
            }
        }
        Some(i128_of_u128(u))
    } else {
        let p = pow256_exec(n);
        proof {
            lemma_pow256_le(n as nat, 15);
            lemma_pow256_values();
        }
        if s[0] >= 0x80 {
            Some((u as i128) - (p as i128))
        } else {
            Some(u as i128)
        }
    }
}

/// Read an unsigned value from at most 16 big-endian bytes.
fn be_uint_exec(s: &Vec<u8>) -> (r: u128)
    requires
        s@.len() <= 16,
    ensures
        r == spec_be_uint(s@),
{
    let n = s.len();
    let mut u: u128 = 0;
    let mut i: usize = 0;
    proof {
        assert(s@.take(0) =~= Seq::<u8>::empty());
    }
    while i < n
        invariant
            i <= n,
            n == s@.len(),
            n <= 16,
            u == spec_be_uint(s@.take(i as int)),
            u < pow256(i as nat),
        decreases n - i,
    {
        proof {
            lemma_pow256_values();
            lemma_pow256_le((i + 1) as nat, 16);
            assert(pow256((i + 1) as nat) == 256 * pow256(i as nat));
            assert(u * 256 + s@[i as int] < pow256((i + 1) as nat)) by {
                assert(u <= pow256(i as nat) - 1);
                vstd::arithmetic::mul::lemma_mul_inequality(u as int, pow256(i as nat) - 1, 256);
            }
            assert(s@.take(i + 1).drop_last() =~= s@.take(i as int));
            assert(s@.take(i + 1).last() == s@[i as int]);
        }
        u = u * 256 + (s[i] as u128);
        i = i + 1;
    }
    proof {
        assert(s@.take(n as int) =~= s@);
    }
    u
}

/// Relies on String::from_utf8: it accepts exactly the valid UTF-8 byte
/// sequences and decodes them to the characters they spell.
#[verifier::external_body]
pub(crate) fn string_from_utf8(v: Vec<u8>) -> (r: Option<String>)
    ensures
        r is Some <==> vstd::utf8::valid_utf8(v@),
        r matches Some(s) ==> s@ == vstd::utf8::decode_utf8(v@),
{
    String::from_utf8(v).ok()
}

/// The single-value serialization of a literal.
pub open spec fn spec_datum_bytes(lit: LitV) -> Seq<u8> {
    match lit {
        LitV::Boolean(b) => seq![
            if b {
                1u8
            } else {
                0u8
            },
        ],
        LitV::Int(v) => spec_le4(spec_u32_of_i32(v)),
        LitV::Long(v) => spec_le8(spec_u64_of_i64(v)),
        LitV::Float(bits) => spec_le4(bits),
        LitV::Double(bits) => spec_le8(bits),
        LitV::Str(s) => vstd::utf8::encode_utf8(s),
        LitV::Bytes(b) => b,
        LitV::Int128(v) => spec_decimal_bytes(v),
        LitV::UInt128(v) => spec_be_n(v, 16),
    }
}

/// Whether a byte sequence decodes under a primitive type.
pub open spec fn spec_bytes_decode_ok(ty: PrimitiveType, s: Seq<u8>) -> bool {
    match ty {
        PrimitiveType::Boolean => s.len() == 1,
        PrimitiveType::Int | PrimitiveType::Date => s.len() == 4,
        PrimitiveType::Long | PrimitiveType::Time | PrimitiveType::Timestamp
            | PrimitiveType::Timestamptz | PrimitiveType::TimestampNs
            | PrimitiveType::TimestamptzNs => s.len() == 8,
        PrimitiveType::Float => s.len() == 4,
        PrimitiveType::Double => s.len() == 8,
        PrimitiveType::String => vstd::utf8::valid_utf8(s),
        PrimitiveType::Binary => true,
        PrimitiveType::Fixed(n) => s.len() == n,
        PrimitiveType::Decimal { .. } => 1 <= s.len() <= 16,
        PrimitiveType::Uuid => s.len() == 16,
    }
}

/// The literal a byte sequence decodes to under a primitive type.
pub open spec fn spec_decoded_lit(ty: PrimitiveType, s: Seq<u8>) -> LitV {
    match ty {
        PrimitiveType::Boolean => LitV::Boolean(s[0] != 0),
        PrimitiveType::Int | PrimitiveType::Date => LitV::Int(spec_i32_of_u32(spec_u32_of_le(s))),
        PrimitiveType::Long | PrimitiveType::Time | PrimitiveType::Timestamp
            | PrimitiveType::Timestamptz | PrimitiveType::TimestampNs
            | PrimitiveType::TimestamptzNs => LitV::Long(spec_i64_of_u64(spec_u64_of_le(s))),
        PrimitiveType::Float => LitV::Float(spec_u32_of_le(s)),
        PrimitiveType::Double => LitV::Double(spec_u64_of_le(s)),
        PrimitiveType::String => LitV::Str(vstd::utf8::decode_utf8(s)),
        PrimitiveType::Binary | PrimitiveType::Fixed(_) => LitV::Bytes(s),
        PrimitiveType::Decimal { .. } => LitV::Int128(spec_be_sint(s) as i128),
        PrimitiveType::Uuid => LitV::UInt128(spec_be_uint(s) as u128),
    }
}

/// Whether a literal is what a byte sequence decodes to under a type.
pub open spec fn spec_lit_matches_bytes(ty: PrimitiveType, lit: LitV, s: Seq<u8>) -> bool {
    lit == spec_decoded_lit(ty, s)
}

impl Datum {
    /// Serialize this value with the single-value binary serialization.
    pub fn to_bytes(&self) -> (r: Vec<u8>)
        ensures
            r@ == spec_datum_bytes(self.lit@),
    {
        match &self.lit {
            PrimitiveLiteral::Boolean(b) => {
                let mut out: Vec<u8> = Vec::new();
                out.push(if *b {
                    1u8
                } else {
                    0u8
                });
                assert(out@ =~= spec_datum_bytes(self.lit@));
                out
            },
            PrimitiveLiteral::Int(v) => {
                let mut out: Vec<u8> = Vec::new();
                push_le4(&mut out, u32_of_i32(*v));
                assert(out@ =~= spec_datum_bytes(self.lit@));
                out
            },
            PrimitiveLiteral::Long(v) => {
                let mut out: Vec<u8> = Vec::new();
                push_le8(&mut out, u64_of_i64(*v));
                assert(out@ =~= spec_datum_bytes(self.lit@));
                out
            },
            PrimitiveLiteral::Float(bits) => {
                let mut out: Vec<u8> = Vec::new();
                push_le4(&mut out, *bits);
                assert(out@ =~= spec_datum_bytes(self.lit@));
                out
            },
            PrimitiveLiteral::Double(bits) => {
                let mut out: Vec<u8> = Vec::new();
                push_le8(&mut out, *bits);
                assert(out@ =~= spec_datum_bytes(self.lit@));
                out
            },
            PrimitiveLiteral::String(s) => s.as_str().as_bytes_vec(),
            PrimitiveLiteral::Binary(b) => b.clone(),
            PrimitiveLiteral::Int128(v) => decimal_to_bytes(*v),
            PrimitiveLiteral::UInt128(v) => be_n_bytes(*v, 16),
        }
    }

    /// Deserialize a value of the given primitive type from its single-value
    /// binary serialization. Fails exactly on byte sequences of the wrong
    /// length for the type, or, for strings, on invalid UTF-8.
    pub fn try_from_bytes(bytes: &Vec<u8>, ty: PrimitiveType) -> (r: Result<Datum, Error>)
        ensures
            r is Ok <==> spec_bytes_decode_ok(ty, bytes@),
            r matches Ok(d) ==> d.ty == ty && spec_lit_matches_bytes(ty, d.lit@, bytes@)
                && d.wf(),
    {
        match ty {
            PrimitiveType::Boolean => {
                if bytes.len() == 1 {
                    Ok(Datum { ty, lit: PrimitiveLiteral::Boolean(bytes[0] != 0) })
                } else {
                    Err(Error::data_invalid("a boolean bound takes one byte".to_owned()))
                }
            },
            PrimitiveType::Int | PrimitiveType::Date => {
                if bytes.len() == 4 {
                    Ok(Datum { ty, lit: PrimitiveLiteral::Int(i32_of_u32(u32_of_le(bytes))) })
                } else {
                    Err(Error::data_invalid("an int bound takes four bytes".to_owned()))
                }
            },
            PrimitiveType::Long | PrimitiveType::Time | PrimitiveType::Timestamp
                | PrimitiveType::Timestamptz | PrimitiveType::TimestampNs
                | PrimitiveType::TimestamptzNs => {
                if bytes.len() == 8 {
                    Ok(Datum { ty, lit: PrimitiveLiteral::Long(i64_of_u64(u64_of_le(bytes))) })
                } else {
                    Err(Error::data_invalid("a long bound takes eight bytes".to_owned()))
                }
            },
            PrimitiveType::Float => {
                if bytes.len() == 4 {
                    Ok(Datum { ty, lit: PrimitiveLiteral::Float(u32_of_le(bytes)) })
                } else {
                    Err(Error::data_invalid("a float bound takes four bytes".to_owned()))
                }
            },
            PrimitiveType::Double => {
                if bytes.len() == 8 {
                    Ok(Datum { ty, lit: PrimitiveLiteral::Double(u64_of_le(bytes)) })
                } else {
                    Err(Error::data_invalid("a double bound takes eight bytes".to_owned()))
                }
            },
            PrimitiveType::String => {
                match string_from_utf8(bytes.clone()) {
                    Some(s) => Ok(Datum { ty, lit: PrimitiveLiteral::String(s) }),
                    None => Err(
                        Error::data_invalid("a string bound must be valid UTF-8".to_owned()),
                    ),
                }
            },
            PrimitiveType::Binary => Ok(
                Datum { ty, lit: PrimitiveLiteral::Binary(bytes.clone()) },
            ),
            PrimitiveType::Fixed(n) => {
                if bytes.len() as u64 == n {
                    Ok(Datum { ty, lit: PrimitiveLiteral::Binary(bytes.clone()) })
                } else {
                    Err(
                        Error::data_invalid(
                            "a fixed bound must have the declared length".to_owned(),
                        ),
                    )
                }
            },
            PrimitiveType::Decimal { .. } => {
                match decimal_of_bytes(bytes) {
                    Some(v) => Ok(Datum { ty, lit: PrimitiveLiteral::Int128(v) }),
                    None => Err(
                        Error::data_invalid(
                            "a decimal bound takes one to sixteen bytes".to_owned(),
                        ),
                    ),
                }
            },
            PrimitiveType::Uuid => {
                if bytes.len() == 16 {
                    proof {
                        lemma_be_uint_bound(bytes@);
                        lemma_pow256_values();
                    }
                    Ok(
                        Datum {
                            ty,
                            lit: PrimitiveLiteral::UInt128(be_uint_exec(bytes) as u128),
                        },
                    )
                } else {
                    Err(Error::data_invalid("a UUID bound takes sixteen bytes".to_owned()))
                }
            },
        }
    }
}

/// Serializing a well-formed datum and deserializing it at the same type gives
/// the datum back. For a fixed-length type the literal must have the declared
/// length.
pub proof fn lemma_datum_bytes_roundtrip(d: DatumV)
    requires
        spec_compatible(d.ty, d.lit),
        d.ty matches PrimitiveType::Fixed(n) ==> (d.lit matches LitV::Bytes(b) && b.len() == n),
    ensures
        spec_bytes_decode_ok(d.ty, spec_datum_bytes(d.lit)),
        spec_lit_matches_bytes(d.ty, d.lit, spec_datum_bytes(d.lit)),
{
    let s = spec_datum_bytes(d.lit);
    match d.lit {
        LitV::Boolean(b) => {
            assert(s[0] != 0 <==> b);
        },
        LitV::Int(v) => {
            lemma_le4_roundtrip(spec_u32_of_i32(v));
            lemma_i32_pattern_roundtrip(v);
        },
        LitV::Long(v) => {
            lemma_le8_roundtrip(spec_u64_of_i64(v));
            lemma_i64_pattern_roundtrip(v);
        },
        LitV::Float(bits) => {
            lemma_le4_roundtrip(bits);
        },
        LitV::Double(bits) => {
            lemma_le8_roundtrip(bits);
        },
        LitV::Str(x) => {
            vstd::utf8::encode_utf8_valid_utf8(x);
            vstd::utf8::encode_utf8_decode_utf8(x);
        },
        LitV::Bytes(_) => {},
        LitV::Int128(v) => {
            lemma_decimal_roundtrip(v);
            lemma_be_n_len(spec_u128_of_i128(v), 16);
            lemma_trim_signed_len(spec_be_n(spec_u128_of_i128(v), 16));
        },
        LitV::UInt128(v) => {
            lemma_be_n_len(v, 16);
            lemma_be_n_uint(v, 16);
            lemma_pow256_values();
            vstd::arithmetic::div_mod::lemma_small_mod(v as nat, pow256(16) as nat);
        },
    }
}

/// Encoding a signed value minimally and reading it back is the identity.
pub proof fn lemma_decimal_roundtrip(v: i128)
    ensures
        spec_decimal_of_bytes(spec_decimal_bytes(v)) == Some(v),
{
    let u = spec_u128_of_i128(v);
    let full = spec_be_n(u, 16);
    lemma_be_n_len(u, 16);
    lemma_be_n_uint(u, 16);
    lemma_pow256_values();
    assert((u as int) % pow256(16) == u) by {
        vstd::arithmetic::div_mod::lemma_small_mod(u as nat, pow256(16) as nat);
    }
    lemma_trim_signed_len(full);
    lemma_trim_signed_value(full);
    let t = spec_trim_signed(full);
    assert(spec_decimal_bytes(v) == t);
    // The sign byte of the full rendering tells the sign of the carried value.
    lemma_be_uint_first(full);
    lemma_be_uint_bound(full.drop_first());
    lemma_pow256_values();
    if full[0] >= 0x80 {
        assert(full[0] * pow256(15) >= 0x80 * pow256(15)) by {
            vstd::arithmetic::mul::lemma_mul_inequality(0x80, full[0] as int, pow256(15));
        }
        assert(0x80 * pow256(15) == 0x8000_0000_0000_0000_0000_0000_0000_0000);
    } else {
        assert(full[0] * pow256(15) <= 0x7f * pow256(15)) by {
            vstd::arithmetic::mul::lemma_mul_inequality(full[0] as int, 0x7f, pow256(15));
        }
        assert(0x7f * pow256(15) + pow256(15) == 0x8000_0000_0000_0000_0000_0000_0000_0000)
           ;
    }
    assert(spec_be_sint(full) == v);
    assert(spec_be_sint(t) == v);
}

} // verus!

