//! Parsing the watched file's contents into a port value, and formatting a
//! port value back into decimal digits for the outbound request.

use vstd::prelude::*;
use crate::text::{trimmed, trim_bytes, is_ascii_space};

verus! {

/// Reading the port file can fail in two recoverable ways: the file could
/// not be read at all, or its contents are not a decimal number.
#[derive(Clone, Copy, Debug, PartialEq, Eq, Structural)]
pub enum ReadError {
    IoFailure,
    ParseFailure,
}

/// Whether `b` is an ASCII decimal digit.
pub open spec fn is_digit(b: u8) -> bool {
    48 <= b && b <= 57
}

/// Whether every byte of `s` is an ASCII decimal digit.
pub open spec fn all_digits(s: Seq<u8>) -> bool {
    forall|i: int| 0 <= i < s.len() ==> is_digit(#[trigger] s[i])
}

/// The number denoted by a sequence of ASCII decimal digits.
pub open spec fn digits_value(s: Seq<u8>) -> nat
    decreases s.len(),
{
    if s.len() == 0 {
        0
    } else {
        digits_value(s.drop_last()) * 10 + (s.last() - 48) as nat
    }
}

/// Whether `s` is exactly a decimal number that fits in a `u32`: non-empty,
/// all digits, and not above `u32::MAX`.
pub open spec fn digits_parse_ok(s: Seq<u8>) -> bool {
    s.len() > 0 && all_digits(s) && digits_value(s) <= u32::MAX
}

/// Whether the file contents `s` parse as a port value: after trimming
/// ASCII whitespace, what remains is a decimal number that fits in a `u32`.
pub open spec fn port_parse_ok(s: Seq<u8>) -> bool {
    digits_parse_ok(trimmed(s))
}

/// The port value denoted by the file contents `s` (meaningful when
/// `port_parse_ok(s)` holds).
pub open spec fn parsed_port(s: Seq<u8>) -> nat {
    digits_value(trimmed(s))
}

/// The value of a digit prefix never exceeds the value of the whole digit
/// string: each further digit multiplies by ten and adds a non-negative
/// amount.
proof fn lemma_digits_value_prefix_le(s: Seq<u8>, i: int)
    requires
        0 <= i <= s.len(),
        all_digits(s),
    ensures
        digits_value(s.take(i)) <= digits_value(s),
    decreases s.len() - i,
{
    if i == s.len() {
        assert(s.take(i) =~= s);
    } else {
        lemma_digits_value_prefix_le(s, i + 1);
        assert(s.take(i + 1).drop_last() =~= s.take(i));
        assert(s.take(i + 1).last() == s[i]);
        assert(digits_value(s.take(i + 1)) == digits_value(s.take(i)) * 10 + (s[i] - 48) as nat);
        assert(digits_value(s.take(i)) <= digits_value(s.take(i)) * 10);
    }
}

/// Parses a sequence of bytes as an unsigned decimal number. Succeeds, with
/// the denoted value, exactly when the bytes are non-empty, all digits, and
/// the value fits in a `u32`.
fn parse_digits(t: &Vec<u8>) -> (parsed: Option<u32>)
    ensures
        parsed is Some <==> digits_parse_ok(t@),
        digits_parse_ok(t@) ==> parsed == Some(digits_value(t@) as u32),
{
    let n = t.len();
    if n == 0 {
        return None;
    }
    let mut acc: u32 = 0;
    let mut k: usize = 0;
    while k < n
        invariant
            0 <= k <= n,
            n == t@.len(),
            forall|i: int| 0 <= i < k ==> is_digit(#[trigger] t@[i]),
            acc == digits_value(t@.take(k as int)),
        decreases n - k,
    {
        let b = t[k];
        if b < 48 || b > 57 {
            assert(!all_digits(t@));
            return None;
        }
        let d: u32 = (b - 48) as u32;
        if acc > (u32::MAX - d) / 10 {
            assert(acc * 10 + d > u32::MAX) by (nonlinear_arith)
                requires
                    acc > (u32::MAX - d) / 10,
                    d <= 9,
                    acc <= u32::MAX,
            ;
            proof {
                assert(t@.take(k + 1 as int).drop_last() =~= t@.take(k as int));
                assert(digits_value(t@.take(k + 1 as int)) == acc * 10 + d);
                if all_digits(t@) {
                    lemma_digits_value_prefix_le(t@, k + 1 as int);
                    assert(digits_value(t@) > u32::MAX);
                }
            }
            return None;
        }
        assert(acc * 10 + d <= u32::MAX) by (nonlinear_arith)
            requires
                acc <= (u32::MAX - d) / 10,
                d <= 9,
        ;
        acc = acc * 10 + d;
        proof {
            assert(t@.take(k + 1 as int).drop_last() =~= t@.take(k as int));
            assert(t@.take(k + 1 as int).last() == t@[k as int]);
        }
        k = k + 1;
    }
    proof {
        assert(t@.take(n as int) =~= t@);
    }
    Some(acc)
}

/// Parses the watched file's contents: trims ASCII whitespace, then reads
/// the remainder as an unsigned decimal number. Returns `Ok` with the
/// denoted value exactly when the trimmed contents are a non-empty digit
/// string whose value fits in a `u32`; every other content yields
/// `Err(ParseFailure)`.
pub fn parse_port(contents: &Vec<u8>) -> (parsed: Result<u32, ReadError>)
    ensures
        parsed is Ok <==> port_parse_ok(contents@),
        port_parse_ok(contents@) ==> parsed == Ok::<u32, ReadError>(parsed_port(contents@) as u32),
        !port_parse_ok(contents@) ==> parsed == Err::<u32, ReadError>(ReadError::ParseFailure),
{
    let t = trim_bytes(contents);
    match parse_digits(&t) {
        Some(v) => Ok(v),
        None => Err(ReadError::ParseFailure),
    }
}

/// The decimal digits of `v`, most significant first.
pub open spec fn dec_digits(v: nat) -> Seq<u8>
    decreases v,
{
    if v < 10 {
        seq![(v + 48) as u8]
    } else {
        dec_digits(v / 10).push((v % 10 + 48) as u8)
    }
}

/// The decimal digits of a number denote that number, are all digits, and
/// are never empty.
pub proof fn lemma_dec_digits_value(v: nat)
    ensures
        digits_value(dec_digits(v)) == v,
        all_digits(dec_digits(v)),
        dec_digits(v).len() > 0,
    decreases v,
{
    if v < 10 {
        let s = dec_digits(v);
        assert(s.drop_last() =~= Seq::<u8>::empty());
        assert(digits_value(Seq::<u8>::empty()) == 0);
        assert(s.last() == (v + 48) as u8);
        assert((s.last() - 48) as nat == v);
    } else {
        lemma_dec_digits_value(v / 10);
        let s = dec_digits(v);
        assert(s.drop_last() =~= dec_digits(v / 10));
        assert(v % 10 < 10) by (nonlinear_arith);
        assert(s.last() == (v % 10 + 48) as u8);
        assert((s.last() - 48) as nat == v % 10);
        assert(digits_value(s) == (v / 10) * 10 + v % 10);
        assert(v / 10 * 10 + v % 10 == v) by (nonlinear_arith);
        assert(forall|i: int| 0 <= i < s.len() ==> is_digit(#[trigger] s[i])) by {
            assert(forall|i: int|
                0 <= i < s.len() - 1 ==> #[trigger] s[i] == dec_digits(v / 10)[i]);
        }
    }
}

/// Formats `v` as its decimal digits, most significant first.
pub fn format_port(v: u32) -> (digits: Vec<u8>)
    ensures
        digits@ == dec_digits(v as nat),
    decreases v,
{
    if v < 10 {
        let mut digits: Vec<u8> = Vec::new();
        digits.push((v as u8) + 48);
        assert(digits@ =~= dec_digits(v as nat));
        digits
    } else {
        let mut digits = format_port(v / 10);
        digits.push(((v % 10) as u8) + 48);
        assert(digits@ =~= dec_digits(v as nat));
        digits
    }
}

/// Round trip: the decimal digits of a port value parse back to that value.
/// Digits carry no surrounding whitespace, so trimming leaves them intact.
pub proof fn lemma_format_parse_round_trip(v: u32)
    ensures
        port_parse_ok(dec_digits(v as nat)),
        parsed_port(dec_digits(v as nat)) == v,
{
    lemma_dec_digits_value(v as nat);
    let s = dec_digits(v as nat);
    assert(!is_ascii_space(s[0]));
    assert(!is_ascii_space(s.last()));
    assert(trimmed(s) == s);
}

} // verus!
