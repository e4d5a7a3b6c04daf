//! Unsigned decimal integers read from text, with the outcomes of the
//! standard library's `from_str` for unsigned types.

use vstd::prelude::*;
use crate::serializable_int_error_kind::SerializableIntErrorKind;
use crate::text::is_ascii_digit;

verus! {

pub open spec fn digit_value(c: char) -> int {
    c as int - '0' as int
}

/// The outcome of reading the first `i` characters of `d` as decimal digits,
/// failing at the first character that is no digit or makes the value pass
/// `max`.
pub open spec fn scan_digits(d: Seq<char>, i: int, max: int) -> Result<int, SerializableIntErrorKind>
    decreases i,
{
    if i <= 0 {
        Ok(0)
    } else {
        match scan_digits(d, i - 1, max) {
            Err(e) => Err(e),
            Ok(v) => if !is_ascii_digit(d[i - 1]) {
                Err(SerializableIntErrorKind::InvalidDigit)
            } else if v * 10 + digit_value(d[i - 1]) > max {
                Err(SerializableIntErrorKind::PosOverflow)
            } else {
                Ok(v * 10 + digit_value(d[i - 1]))
            },
        }
    }
}

/// The value that `s` denotes as an unsigned integer of at most `max`: an
/// optional leading `+` and then decimal digits.
pub open spec fn parse_unsigned(s: Seq<char>, max: int) -> Result<int, SerializableIntErrorKind> {
    if s.len() == 0 {
        Err(SerializableIntErrorKind::Empty)
    } else if s.len() == 1 && (s[0] == '+' || s[0] == '-') {
        Err(SerializableIntErrorKind::InvalidDigit)
    } else {
        let d = if s[0] == '+' {
            s.subrange(1, s.len() as int)
        } else {
            s
        };
        scan_digits(d, d.len() as int, max)
    }
}

proof fn lemma_scan_bounded(d: Seq<char>, i: int, max: int)
    requires
        0 <= max,
    ensures
        scan_digits(d, i, max) matches Ok(v) ==> 0 <= v <= max,
    decreases i,
{
    if i > 0 {
        lemma_scan_bounded(d, i - 1, max);
    }
}

proof fn lemma_scan_error_stays(d: Seq<char>, i: int, j: int, max: int)
    requires
        0 <= i <= j,
        scan_digits(d, i, max) is Err,
    ensures
        scan_digits(d, j, max) == scan_digits(d, i, max),
    decreases j - i,
{
    if j > i {
        lemma_scan_error_stays(d, i, j - 1, max);
    }
}

/// The number that a run of decimal digits denotes.
pub open spec fn digits_value(d: Seq<char>) -> int
    decreases d.len(),
{
    if d.len() == 0 {
        0
    } else {
        digits_value(d.drop_last()) * 10 + digit_value(d.last())
    }
}

proof fn lemma_digits_value_nonneg(d: Seq<char>)
    requires
        forall|k: int| 0 <= k < d.len() ==> is_ascii_digit(#[trigger] d[k]),
    ensures
        digits_value(d) >= 0,
    decreases d.len(),
{
    if d.len() > 0 {
        lemma_digits_value_nonneg(d.drop_last());
    }
}

proof fn lemma_scan_all_digits(d: Seq<char>, i: int, max: int)
    requires
        0 <= i <= d.len(),
        0 <= max,
        forall|k: int| 0 <= k < d.len() ==> is_ascii_digit(#[trigger] d[k]),
    ensures
        digits_value(d.subrange(0, i)) <= max ==> scan_digits(d, i, max) == Ok::<int, SerializableIntErrorKind>(digits_value(d.subrange(0, i))),
        digits_value(d.subrange(0, i)) > max ==> scan_digits(d, i, max) == Err::<int, SerializableIntErrorKind>(SerializableIntErrorKind::PosOverflow),
    decreases i,
{
    if i == 0 {
        assert(d.subrange(0, 0) =~= Seq::<char>::empty());
    } else {
        lemma_scan_all_digits(d, i - 1, max);
        let p = d.subrange(0, i);
        assert(p.drop_last() =~= d.subrange(0, i - 1));
        assert(p.last() == d[i - 1]);
        lemma_digits_value_nonneg(p.drop_last());
        assert(digits_value(p) == digits_value(d.subrange(0, i - 1)) * 10 + digit_value(d[i - 1]));
    }
}

/// Digits alone denote their number: a run of ASCII digits reads as the
/// number it denotes where that fits under `max`, leading zeros included,
/// and as an overflow where it does not.
pub proof fn lemma_parse_digits(d: Seq<char>, max: int)
    requires
        d.len() > 0,
        0 <= max,
        forall|k: int| 0 <= k < d.len() ==> is_ascii_digit(#[trigger] d[k]),
    ensures
        digits_value(d) <= max ==> parse_unsigned(d, max) == Ok::<int, SerializableIntErrorKind>(digits_value(d)),
        digits_value(d) > max ==> parse_unsigned(d, max) == Err::<int, SerializableIntErrorKind>(SerializableIntErrorKind::PosOverflow),
{
    lemma_scan_all_digits(d, d.len() as int, max);
    assert(d.subrange(0, d.len() as int) =~= d);
    assert(is_ascii_digit(d[0]));
}

/// Reads `s` as an unsigned integer no larger than `max`.
pub fn parse_unsigned_exec(s: &[char], max: u32) -> (r: Result<u32, SerializableIntErrorKind>)
    ensures
        match r {
            Ok(v) => parse_unsigned(s@, max as int) == Ok::<int, SerializableIntErrorKind>(v as int),
            Err(e) => parse_unsigned(s@, max as int) == Err::<int, SerializableIntErrorKind>(e),
        },
{
    if s.len() == 0 {
        return Err(SerializableIntErrorKind::Empty);
    }
    if s.len() == 1 && (s[0] == '+' || s[0] == '-') {
        return Err(SerializableIntErrorKind::InvalidDigit);
    }
    let start: usize = if s[0] == '+' { 1 } else { 0 };
    let ghost d = if s@[0] == '+' { s@.subrange(1, s@.len() as int) } else { s@ };
    assert(parse_unsigned(s@, max as int) == scan_digits(d, d.len() as int, max as int));
    let mut i = start;
    let mut acc: u32 = 0;
    while i < s.len()
        invariant
            start <= i <= s.len(),
            d.len() == s.len() - start,
            parse_unsigned(s@, max as int) == scan_digits(d, d.len() as int, max as int),
            forall|k: int| 0 <= k < d.len() ==> d[k] == s@[k + start],
            scan_digits(d, i - start, max as int) == Ok::<int, SerializableIntErrorKind>(acc as int),
            acc <= max,
        decreases s.len() - i,
    {
        let c = s[i];
        assert(d[i - start] == c);
        if !('0' <= c && c <= '9') {
            proof {
                assert(scan_digits(d, i - start + 1, max as int) == Err::<int, SerializableIntErrorKind>(
                    SerializableIntErrorKind::InvalidDigit));
                lemma_scan_error_stays(d, i - start + 1, d.len() as int, max as int);
            }
            return Err(SerializableIntErrorKind::InvalidDigit);
        }
        let dv = (c as u32) - ('0' as u32);
        let next: u64 = acc as u64 * 10 + dv as u64;
        if next > max as u64 {
            proof {
                assert(scan_digits(d, i - start + 1, max as int) == Err::<int, SerializableIntErrorKind>(
                    SerializableIntErrorKind::PosOverflow));
                lemma_scan_error_stays(d, i - start + 1, d.len() as int, max as int);
            }
            return Err(SerializableIntErrorKind::PosOverflow);
        }
        acc = next as u32;
        i += 1;
    }
    Ok(acc)
}

/// Reads `s` as a `u32`.
pub fn parse_u32(s: &[char]) -> (r: Result<u32, SerializableIntErrorKind>)
    ensures
        match r {
            Ok(v) => parse_unsigned(s@, u32::MAX as int) == Ok::<int, SerializableIntErrorKind>(
                v as int,
            ),
            Err(e) => parse_unsigned(s@, u32::MAX as int) == Err::<int, SerializableIntErrorKind>(e),
        },
{
    parse_unsigned_exec(s, u32::MAX)
}

/// Reads `s` as a `u8`.
pub fn parse_u8(s: &[char]) -> (r: Result<u8, SerializableIntErrorKind>)
    ensures
        match r {
            Ok(v) => parse_unsigned(s@, u8::MAX as int) == Ok::<int, SerializableIntErrorKind>(
                v as int,
            ),
            Err(e) => parse_unsigned(s@, u8::MAX as int) == Err::<int, SerializableIntErrorKind>(e),
        },
{
    match parse_unsigned_exec(s, 255) {
        Ok(v) => Ok(v as u8),
        Err(e) => Err(e),
    }
}

} // verus!
