//! Small verified string helpers: equality of strings by view, and parsing of
//! decimal integers as they appear in manifest user metadata and type names.
use vstd::prelude::*;
use vstd::string::StrSliceExecFns;

verus! {

/// Compare two byte vectors for equality.
pub fn bytes_eq(a: &Vec<u8>, b: &Vec<u8>) -> (r: bool)
    ensures
        r == (a@ == b@),
{
    if a.len() != b.len() {
        return false;
    }
    let n = a.len();
    let mut i: usize = 0;
    while i < n
        invariant
            i <= n,
            n == a@.len(),
            n == b@.len(),
            a@.subrange(0, i as int) =~= b@.subrange(0, i as int),
        decreases n - i,
    {
        if a[i] != b[i] {
            return false;
        }
        proof {
            assert(a@.subrange(0, i + 1) =~= a@.subrange(0, i as int).push(a@[i as int]));
            assert(b@.subrange(0, i + 1) =~= b@.subrange(0, i as int).push(b@[i as int]));
        }
        i = i + 1;
    }
    proof {
        assert(a@.subrange(0, n as int) =~= a@);
        assert(b@.subrange(0, n as int) =~= b@);
    }
    true
}

/// Compare two strings for equality of their character sequences.
pub fn str_eq(a: &str, b: &str) -> (r: bool)
    ensures
        r == (a@ == b@),
{
    let ab = a.as_bytes_vec();
    let bb = b.as_bytes_vec();
    let r = bytes_eq(&ab, &bb);
    proof {
        if ab@ == bb@ {
            vstd::utf8::encode_utf8_decode_utf8(a@);
            vstd::utf8::encode_utf8_decode_utf8(b@);
        }
    }
    r
}

/// Whether a character is an ASCII decimal digit.
pub open spec fn spec_is_digit(c: char) -> bool {
    '0' <= c <= '9'
}

/// Whether every character of a sequence is an ASCII decimal digit.
pub open spec fn spec_all_digits(s: Seq<char>) -> bool {
    forall|i: int| 0 <= i < s.len() ==> spec_is_digit(#[trigger] s[i])
}

/// The value spelled by a sequence of decimal digits.
pub open spec fn spec_digits_value(s: Seq<char>) -> int
    decreases s.len(),
{
    if s.len() == 0 {
        0
    } else {
        spec_digits_value(s.drop_last()) * 10 + (s.last() as int - '0' as int)
    }
}

/// A digit sequence with its leading zeros removed.
pub open spec fn spec_strip_zeros(s: Seq<char>) -> Seq<char>
    decreases s.len(),
{
    if s.len() > 0 && s[0] == '0' {
        spec_strip_zeros(s.drop_first())
    } else {
        s
    }
}

/// Stripping leading zeros keeps the spelled value.
pub proof fn lemma_strip_zeros_value(s: Seq<char>)
    ensures
        spec_digits_value(spec_strip_zeros(s)) == spec_digits_value(s),
        spec_strip_zeros(s).len() <= s.len(),
        spec_all_digits(s) ==> spec_all_digits(spec_strip_zeros(s)),
    decreases s.len(),
{
    if s.len() > 0 && s[0] == '0' {
        let rest = s.drop_first();
        if spec_all_digits(s) {
            assert forall|i: int| 0 <= i < rest.len() implies spec_is_digit(#[trigger] rest[i]) by {
                assert(rest[i] == s[i + 1]);
            }
        }
        lemma_strip_zeros_value(rest);
        lemma_digits_value_first_zero(s);
    }
}

/// A leading zero contributes nothing to the spelled value.
proof fn lemma_digits_value_first_zero(s: Seq<char>)
    requires
        s.len() > 0,
        s[0] == '0',
    ensures
        spec_digits_value(s) == spec_digits_value(s.drop_first()),
    decreases s.len(),
{
    if s.len() == 1 {
        assert(spec_digits_value(Seq::<char>::empty()) == 0);
        assert(s.drop_first() =~= Seq::<char>::empty());
        assert(s.drop_last() =~= Seq::<char>::empty());
    } else {
        assert(s.drop_last()[0] == s[0]);
        lemma_digits_value_first_zero(s.drop_last());
        assert(s.drop_last().drop_first() =~= s.drop_first().drop_last());
        assert(s.drop_first().last() == s.last());
        assert(s.drop_first().len() > 0);
        assert(spec_digits_value(s) == spec_digits_value(s.drop_last()) * 10 + (
        s.last() as int - '0' as int));
        assert(spec_digits_value(s.drop_first()) == spec_digits_value(
            s.drop_first().drop_last(),
        ) * 10 + (s.drop_first().last() as int - '0' as int));
    }
}

/// The unsigned value spelled by a string of decimal digits: defined when the
/// string is nonempty, all digits, and has at most nineteen significant
/// digits (every such value fits 64 bits).
pub open spec fn spec_parse_u64(s: Seq<char>) -> Option<u64> {
    if s.len() >= 1 && spec_all_digits(s) && spec_strip_zeros(s).len() <= 19 {
        Some(spec_digits_value(s) as u64)
    } else {
        None
    }
}

/// Digit values of at most `n` digits stay below 10^n.
proof fn lemma_digits_small_inner(s: Seq<char>, n: nat)
    requires
        spec_all_digits(s),
        s.len() <= n,
        n <= 18,
    ensures
        0 <= spec_digits_value(s) < crate::binary::pow10(s.len()),
    decreases s.len(),
{
    if s.len() > 0 {
        lemma_digits_small_inner(s.drop_last(), n);
        assert(crate::binary::pow10(s.len()) == 10 * crate::binary::pow10((s.len() - 1) as nat));
        assert(spec_digits_value(s.drop_last()) * 10 <= (crate::binary::pow10(
            (s.len() - 1) as nat,
        ) - 1) * 10) by {
            vstd::arithmetic::mul::lemma_mul_inequality(
                spec_digits_value(s.drop_last()),
                crate::binary::pow10((s.len() - 1) as nat) - 1,
                10,
            );
        }
    }
}

/// Parse an unsigned decimal integer from a string: nonempty, all digits, at
/// most nineteen significant digits.
pub fn parse_u64(s: &str) -> (r: Option<u64>)
    ensures
        r == spec_parse_u64(s@),
{
    let n = s.unicode_len();
    if n == 0 {
        return None;
    }
    // Find the first significant digit and check that all are digits.
    let mut z: usize = 0;
    while z < n && s.get_char(z) == '0'
        invariant
            z <= n,
            n == s@.len(),
            forall|i: int| 0 <= i < z ==> s@[i] == '0',
        decreases n - z,
    {
        z = z + 1;
    }
    proof {
        lemma_strip_zeros_skip(s@, z as int);
    }
    if n - z > 19 {
        return None;
    }
    let mut i: usize = 0;
    let mut acc: u64 = 0;
    proof {
        assert(s@.take(0) =~= Seq::<char>::empty());
    }
    while i < n
        invariant
            i <= n,
            n == s@.len(),
            z <= n,
            n - z <= 19,
            forall|j: int| 0 <= j < z ==> s@[j] == '0',
            spec_all_digits(s@.take(i as int)),
            acc == spec_digits_value(s@.take(i as int)),
            i <= z ==> acc == 0,
            acc < 10_000_000_000_000_000_000,
        decreases n - i,
    {
        let c = s.get_char(i);
        if c < '0' || c > '9' {
            proof {
                assert(s@.take(i + 1)[i as int] == s@[i as int]);
            }
            return None;
        }
        let d = (c as u32) - 48;
        proof {
            assert(s@.take(i + 1).drop_last() =~= s@.take(i as int));
            assert(s@.take(i + 1).last() == s@[i as int]);
            assert(spec_all_digits(s@.take(i + 1)));
            if i < z {
                assert(spec_digits_value(s@.take(i + 1)) == 0);
            } else {
                // The prefix past the zeros has at most 18 digits so far, so
                // the next accumulation stays in range.
                let st = spec_strip_zeros(s@.take(i as int));
                lemma_take_strip(s@, z as int, i as int);
                lemma_strip_zeros_value(s@.take(i as int));
                lemma_digits_small_inner(st, 18);
                crate::binary::lemma_pow10_le(st.len(), 18);
                crate::binary::lemma_pow10_values();
                assert(acc <= 999_999_999_999_999_999);
            }
        }
        acc = acc * 10 + (d as u64);
        i = i + 1;
    }
    proof {
        assert(s@.take(n as int) =~= s@);
        lemma_strip_zeros_skip(s@, z as int);
    }
    Some(acc)
}

/// Skipping exactly the leading zeros is what stripping does.
proof fn lemma_strip_zeros_skip(s: Seq<char>, z: int)
    requires
        0 <= z <= s.len(),
        forall|i: int| 0 <= i < z ==> s[i] == '0',
        z < s.len() ==> s[z] != '0',
    ensures
        spec_strip_zeros(s) =~= s.skip(z),
    decreases z,
{
    if z > 0 {
        assert(s[0] == '0');
        lemma_strip_zeros_skip(s.drop_first(), z - 1);
        assert(s.drop_first().skip(z - 1) =~= s.skip(z));
    } else {
        if s.len() > 0 && s[0] == '0' {
            assert(false);
        }
    }
}

/// Stripping a take past the zeros leaves the corresponding middle slice.
proof fn lemma_take_strip(s: Seq<char>, z: int, i: int)
    requires
        0 <= z <= i <= s.len(),
        forall|j: int| 0 <= j < z ==> s[j] == '0',
    ensures
        spec_strip_zeros(s.take(i)).len() <= i - z,
    decreases z,
{
    if z > 0 {
        assert(s.take(i)[0] == '0');
        lemma_take_strip(s.drop_first(), z - 1, i - 1);
        assert(s.drop_first().take(i - 1) =~= s.take(i).drop_first());
    } else {
        lemma_strip_len(s.take(i));
    }
}

/// Stripping never grows a sequence.
proof fn lemma_strip_len(s: Seq<char>)
    ensures
        spec_strip_zeros(s).len() <= s.len(),
    decreases s.len(),
{
    if s.len() > 0 && s[0] == '0' {
        lemma_strip_len(s.drop_first());
    }
}

/// The signed 32-bit value spelled by a decimal string with an optional sign.
pub open spec fn spec_parse_i32(s: Seq<char>) -> Option<i32> {
    let (neg, digits) = if s.len() >= 1 && s[0] == '-' {
        (true, s.drop_first())
    } else if s.len() >= 1 && s[0] == '+' {
        (false, s.drop_first())
    } else {
        (false, s)
    };
    match spec_parse_u64(digits) {
        Some(v) => if !neg && v <= 0x7fff_ffff {
            Some(v as i32)
        } else if neg && v <= 0x8000_0000 {
            Some((-(v as int)) as i32)
        } else {
            None
        },
        None => None,
    }
}

/// Parse a signed 32-bit decimal integer, with an optional leading sign.
pub fn parse_i32(s: &str) -> (r: Option<i32>)
    ensures
        r == spec_parse_i32(s@),
{
    let n = s.unicode_len();
    let (neg, rest) = if n >= 1 && (s.get_char(0) == '-' || s.get_char(0) == '+') {
        let m = s.get_char(0) == '-';
        (m, s.substring_char(1, n))
    } else {
        (false, s.substring_char(0, n))
    };
    proof {
        if n >= 1 && (s@[0] == '-' || s@[0] == '+') {
            assert(rest@ =~= s@.drop_first());
        } else {
            assert(rest@ =~= s@);
        }
    }
    match parse_u64(rest) {
        Some(v) => {
            if !neg && v <= 0x7fff_ffff {
                Some(v as i32)
            } else if neg && v <= 0x8000_0000 {
                Some((-(v as i64)) as i32)
            } else {
                None
            }
        },
        None => None,
    }
}

} // verus!
