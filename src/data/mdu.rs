//! Multiple dwelling units: a named set of buildings near each other that
//! forms one service area.

use vstd::prelude::*;
use crate::number::{digits_value, lemma_parse_digits, parse_u32, parse_unsigned};
use crate::text::{chars_of, is_ascii_digit, occurs_at, occurs_at_exec, string_of, slice_chars};

verus! {

/// Why a dwelling unit code could not be read.
#[derive(Clone, Copy, PartialEq, Eq, Structural, PartialOrd, Ord, Debug, Hash)]
pub enum MDUError {
    /// The text holds no `MDU_<letters><digits>`.
    NoMatch,
    /// The digits do not fit in a `u32`.
    FailedToParseNumber,
}

/// A dwelling unit: the code of its service area and its number.
#[derive(Clone, PartialEq, Eq, PartialOrd, Ord, Debug, Hash)]
pub struct MDU {
    /// Code of the city, such as `ZAP` or `KIE`.
    pub city_code: String,
    pub number: u32,
}

pub struct MduView {
    pub city_code: Seq<char>,
    pub number: u32,
}

impl View for MDU {
    type V = MduView;

    open spec fn view(&self) -> MduView {
        MduView { city_code: self.city_code@, number: self.number }
    }
}

pub open spec fn is_ascii_letter(c: char) -> bool {
    ('a' <= c && c <= 'z') || ('A' <= c && c <= 'Z')
}

/// Length of the run of ASCII letters that starts at `i`.
pub open spec fn letters_run(s: Seq<char>, i: int) -> nat
    decreases s.len() - i,
{
    if 0 <= i < s.len() && is_ascii_letter(s[i]) {
        1 + letters_run(s, i + 1)
    } else {
        0
    }
}

/// Length of the run of ASCII digits that starts at `i`.
pub open spec fn digits_run(s: Seq<char>, i: int) -> nat
    decreases s.len() - i,
{
    if 0 <= i < s.len() && is_ascii_digit(s[i]) {
        1 + digits_run(s, i + 1)
    } else {
        0
    }
}

/// Whether `MDU_`, one or more letters and one or more digits start at `i`.
pub open spec fn mdu_at(s: Seq<char>, i: int) -> bool {
    occurs_at(s, "MDU_"@, i) && letters_run(s, i + 4) >= 1 && digits_run(
        s,
        i + 4 + letters_run(s, i + 4),
    ) >= 1
}

pub open spec fn first_mdu_from(s: Seq<char>, from: int) -> Option<int>
    decreases s.len() + 1 - from,
{
    if from < 0 || from >= s.len() {
        None
    } else if mdu_at(s, from) {
        Some(from)
    } else {
        first_mdu_from(s, from + 1)
    }
}

/// The dwelling unit that the first `MDU_<letters><digits>` in `s` names,
/// taking all the letters and all the digits of the runs; leading zeros of
/// the number do not count.
pub open spec fn mdu_of(s: Seq<char>) -> Result<MduView, MDUError> {
    match first_mdu_from(s, 0) {
        None => Err(MDUError::NoMatch),
        Some(i) => {
            let l = letters_run(s, i + 4);
            let d = digits_run(s, i + 4 + l);
            match parse_unsigned(s.subrange(i + 4 + l, i + 4 + l + d), u32::MAX as int) {
                Ok(v) => Ok(MduView { city_code: s.subrange(i + 4, i + 4 + l), number: v as u32 }),
                Err(_) => Err(MDUError::FailedToParseNumber),
            }
        },
    }
}

proof fn lemma_runs_bounded(s: Seq<char>, i: int)
    requires
        0 <= i,
    ensures
        i + letters_run(s, i) <= s.len() || letters_run(s, i) == 0,
        i + digits_run(s, i) <= s.len() || digits_run(s, i) == 0,
    decreases s.len() - i,
{
    if i < s.len() {
        lemma_runs_bounded(s, i + 1);
    }
}

proof fn lemma_digits_run(s: Seq<char>, i: int)
    requires
        0 <= i,
    ensures
        forall|k: int| i <= k < i + digits_run(s, i) ==> is_ascii_digit(#[trigger] s[k]),
        digits_run(s, i) > 0 ==> i + digits_run(s, i) <= s.len(),
    decreases s.len() - i,
{
    if 0 <= i < s.len() && is_ascii_digit(s[i]) {
        lemma_digits_run(s, i + 1);
    }
}

/// The number of a dwelling unit is the number its digits denote, so leading
/// zeros do not count; digits that denote more than `u32::MAX` are the error
/// `FailedToParseNumber`.
pub proof fn lemma_mdu_number(s: Seq<char>)
    requires
        first_mdu_from(s, 0) is Some,
    ensures
        ({
            let i = first_mdu_from(s, 0)->0;
            let l = letters_run(s, i + 4);
            let digits = s.subrange(i + 4 + l, i + 4 + l + digits_run(s, i + 4 + l));
            &&& digits_value(digits) <= u32::MAX ==> mdu_of(s) == Ok::<MduView, MDUError>(
                MduView { city_code: s.subrange(i + 4, i + 4 + l), number: digits_value(digits) as u32 },
            )
            &&& digits_value(digits) > u32::MAX ==> mdu_of(s) == Err::<MduView, MDUError>(
                MDUError::FailedToParseNumber,
            )
        }),
{
    let i = first_mdu_from(s, 0)->0;
    lemma_first_mdu(s, 0);
    let l = letters_run(s, i + 4);
    let n = digits_run(s, i + 4 + l);
    lemma_digits_run(s, i + 4 + l);
    let digits = s.subrange(i + 4 + l, i + 4 + l + n);
    assert forall|k: int| 0 <= k < digits.len() implies is_ascii_digit(#[trigger] digits[k]) by {
        assert(digits[k] == s[i + 4 + l + k]);
    }
    lemma_parse_digits(digits, u32::MAX as int);
}

proof fn lemma_first_mdu(s: Seq<char>, from: int)
    requires
        0 <= from,
    ensures
        first_mdu_from(s, from) matches Some(i) ==> mdu_at(s, i) && i >= from,
    decreases s.len() + 1 - from,
{
    if from < s.len() && !mdu_at(s, from) {
        lemma_first_mdu(s, from + 1);
    }
}

fn letters_run_exec(s: &[char], i: usize) -> (r: usize)
    requires
        i <= s.len(),
    ensures
        r == letters_run(s@, i as int),
        i + r <= s.len(),
{
    let mut k = i;
    while k < s.len() && (('a' <= s[k] && s[k] <= 'z') || ('A' <= s[k] && s[k] <= 'Z'))
        invariant
            i <= k <= s.len(),
            letters_run(s@, i as int) == (k - i) + letters_run(s@, k as int),
        decreases s.len() - k,
    {
        k += 1;
    }
    k - i
}

fn digits_run_exec(s: &[char], i: usize) -> (r: usize)
    requires
        i <= s.len(),
    ensures
        r == digits_run(s@, i as int),
        i + r <= s.len(),
{
    let mut k = i;
    while k < s.len() && ('0' <= s[k] && s[k] <= '9')
        invariant
            i <= k <= s.len(),
            digits_run(s@, i as int) == (k - i) + digits_run(s@, k as int),
        decreases s.len() - k,
    {
        k += 1;
    }
    k - i
}

impl MDU {
    /// Reads the first `MDU_<letters><digits>` in `text`, such as
    /// `MDU_ZAP00029`.
    pub fn from_work_schedule(text: &str) -> (r: Result<MDU, MDUError>)
        ensures
            match r {
                Ok(m) => mdu_of(text@) == Ok::<MduView, MDUError>(m@),
                Err(e) => mdu_of(text@) == Err::<MduView, MDUError>(e),
            },
    {
        let s = chars_of(text);
        let prefix = chars_of("MDU_");
        let mut i: usize = 0;
        while i < s.len()
            invariant
                prefix@ == "MDU_"@,
                s@ == text@,
                first_mdu_from(s@, 0) == first_mdu_from(s@, i as int),
            decreases s.len() - i,
        {
            if occurs_at_exec(s.as_slice(), prefix.as_slice(), i) {
                assert(i + 4 <= s@.len()) by {
                    reveal_strlit("MDU_");
                }
                let l = letters_run_exec(s.as_slice(), i + 4);
                if l >= 1 {
                    let d = digits_run_exec(s.as_slice(), i + 4 + l);
                    if d >= 1 {
                        assert(mdu_at(s@, i as int));
                        assert(first_mdu_from(s@, i as int) == Some(i as int));
                        let code = slice_chars(s.as_slice(), i + 4, i + 4 + l);
                        let digits = slice_chars(s.as_slice(), i + 4 + l, i + 4 + l + d);
                        return match parse_u32(digits.as_slice()) {
                            Ok(v) => Ok(MDU { city_code: string_of(code.as_slice()), number: v }),
                            Err(_) => Err(MDUError::FailedToParseNumber),
                        };
                    }
                }
            }
            i += 1;
        }
        Err(MDUError::NoMatch)
    }
}

} // verus!
