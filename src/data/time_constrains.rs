//! The time window within which an order is to be carried out.

use vstd::prelude::*;
use crate::data::datetime::Time;
use crate::number::{digit_value, digits_value, lemma_parse_digits, parse_u32, parse_unsigned};
use crate::text::{
    slice_chars, chars_of, first_occurrence_from, find_from, is_ascii_digit, lemma_first_occurrence,
    occurs_at,
};

verus! {

/// Why a time window could not be read.
#[derive(Clone, Copy, PartialEq, Eq, Structural, PartialOrd, Ord, Debug, Hash)]
pub enum TimeConstrainsError {
    /// The text holds no `с HH:MM до HH:MM`.
    NoMatch,
    /// A part of a time is not an unsigned number.
    FailedToParse,
    /// An hour or a minute is out of range.
    InvalidNaiveTime,
    /// A time has no hour part.
    NoHourElement,
    /// A time has no minute part.
    NoMinuteElement,
}

/// The time window within which an order is to be carried out.
#[derive(Clone, Copy, PartialEq, Eq, Structural, PartialOrd, Ord, Debug, Hash)]
pub struct TimeConstrains {
    pub from: Time,
    pub to: Time,
}

impl View for TimeConstrains {
    type V = TimeConstrains;

    open spec fn view(&self) -> TimeConstrains {
        *self
    }
}

/// Whether `с HH:MM до HH:MM` (two ASCII digits for each number) starts at
/// position `i` of `s`.
pub open spec fn window_at(s: Seq<char>, i: int) -> bool {
    &&& 0 <= i && i + 16 <= s.len()
    &&& s[i] == 'с' && s[i + 1] == ' '
    &&& is_ascii_digit(s[i + 2]) && is_ascii_digit(s[i + 3]) && s[i + 4] == ':'
    &&& is_ascii_digit(s[i + 5]) && is_ascii_digit(s[i + 6])
    &&& s[i + 7] == ' ' && s[i + 8] == 'д' && s[i + 9] == 'о' && s[i + 10] == ' '
    &&& is_ascii_digit(s[i + 11]) && is_ascii_digit(s[i + 12]) && s[i + 13] == ':'
    &&& is_ascii_digit(s[i + 14]) && is_ascii_digit(s[i + 15])
}

/// The first position at or after `from` where a window starts.
pub open spec fn first_window_from(s: Seq<char>, from: int) -> Option<int>
    decreases s.len() + 1 - from,
{
    if from < 0 || from + 16 > s.len() {
        None
    } else if window_at(s, from) {
        Some(from)
    } else {
        first_window_from(s, from + 1)
    }
}

pub open spec fn two_digits(s: Seq<char>, i: int) -> int {
    10 * (s[i] as int - '0' as int) + (s[i + 1] as int - '0' as int)
}

/// The time window between two times of day, each checked for range.
pub open spec fn window_of(fh: int, fm: int, th: int, tm: int) -> Result<TimeConstrains, TimeConstrainsError> {
    if 0 <= fh < 24 && 0 <= fm < 60 && 0 <= th < 24 && 0 <= tm < 60 {
        Ok(TimeConstrains {
            from: Time { hour: fh as u32, minute: fm as u32, second: 0 },
            to: Time { hour: th as u32, minute: tm as u32, second: 0 },
        })
    } else {
        Err(TimeConstrainsError::InvalidNaiveTime)
    }
}

/// The time window that the first `с HH:MM до HH:MM` in `s` gives.
pub open spec fn window_from_text(s: Seq<char>) -> Result<TimeConstrains, TimeConstrainsError> {
    match first_window_from(s, 0) {
        None => Err(TimeConstrainsError::NoMatch),
        Some(i) => window_of(
            two_digits(s, i + 2),
            two_digits(s, i + 5),
            two_digits(s, i + 11),
            two_digits(s, i + 14),
        ),
    }
}

/// The part of `s` before its first `:`, or all of `s`.
pub open spec fn hour_part(s: Seq<char>) -> Seq<char> {
    match first_occurrence_from(s, seq![':'], 0) {
        Some(p) => s.subrange(0, p),
        None => s,
    }
}

/// The part of `s` between its first and its second `:` (or its end); none
/// where `s` holds no `:`.
pub open spec fn minute_part(s: Seq<char>) -> Option<Seq<char>> {
    match first_occurrence_from(s, seq![':'], 0) {
        Some(p) => {
            let rest = s.subrange(p + 1, s.len() as int);
            Some(hour_part(rest))
        },
        None => None,
    }
}

/// A number read from a time's part, as the window reader takes it.
pub open spec fn time_number(s: Seq<char>) -> Result<int, TimeConstrainsError> {
    match parse_unsigned(s, u32::MAX as int) {
        Ok(v) => Ok(v),
        Err(_) => Err(TimeConstrainsError::FailedToParse),
    }
}

/// The time window between `HH:MM` texts `f` and `t`: first every part must
/// be there, then every part must be a number, then each time in range.
pub open spec fn window_from_parts(f: Seq<char>, t: Seq<char>) -> Result<TimeConstrains, TimeConstrainsError> {
    if minute_part(f) is None || minute_part(t) is None {
        Err(TimeConstrainsError::NoMinuteElement)
    } else {
        match (
            time_number(hour_part(f)),
            time_number(minute_part(f)->0),
            time_number(hour_part(t)),
            time_number(minute_part(t)->0),
        ) {
            (Ok(fh), Ok(fm), Ok(th), Ok(tm)) => window_of(fh, fm, th, tm),
            _ => Err(TimeConstrainsError::FailedToParse),
        }
    }
}

proof fn lemma_two_digit_number(d: Seq<char>)
    requires
        d.len() == 2,
        is_ascii_digit(d[0]),
        is_ascii_digit(d[1]),
    ensures
        time_number(d) == Ok::<int, TimeConstrainsError>(two_digits(d, 0)),
        hour_part(d) == d,
{
    lemma_parse_digits(d, u32::MAX as int);
    assert(d.drop_last().drop_last() =~= Seq::<char>::empty());
    assert(digits_value(d.drop_last().drop_last()) == 0);
    assert(d.drop_last().last() == d[0]);
    assert(d.last() == d[1]);
    assert(digits_value(d.drop_last()) == digit_value(d[0]));
    assert(digits_value(d) == two_digits(d, 0));
    assert(first_occurrence_from(d, seq![':'], 2) is None);
    assert(d.subrange(1, 2)[0] == d[1]);
    assert(d.subrange(0, 1)[0] == d[0]);
    assert(!occurs_at(d, seq![':'], 1));
    assert(!occurs_at(d, seq![':'], 0));
    assert(first_occurrence_from(d, seq![':'], 1) is None);
    assert(first_occurrence_from(d, seq![':'], 0) is None);
}

/// A window written as free text and the same window given as its two ends
/// read alike: for any two-digit hours and minutes,
/// `с HH:MM до HH:MM` gives what the ends `HH:MM` and `HH:MM` give.
pub proof fn lemma_window_text_equals_parts(h1: Seq<char>, m1: Seq<char>, h2: Seq<char>, m2: Seq<char>)
    requires
        h1.len() == 2 && m1.len() == 2 && h2.len() == 2 && m2.len() == 2,
        forall|k: int| 0 <= k < 2 ==> is_ascii_digit(#[trigger] h1[k]) && is_ascii_digit(m1[k])
            && is_ascii_digit(h2[k]) && is_ascii_digit(m2[k]),
    ensures
        window_from_text("с "@ + h1 + ":"@ + m1 + " до "@ + h2 + ":"@ + m2) == window_from_parts(
            h1 + ":"@ + m1,
            h2 + ":"@ + m2,
        ),
{
    reveal_strlit("с ");
    reveal_strlit(":");
    reveal_strlit(" до ");
    assert(is_ascii_digit(h1[0]) && is_ascii_digit(h1[1]));
    assert(is_ascii_digit(m1[0]) && is_ascii_digit(m1[1]));
    assert(is_ascii_digit(h2[0]) && is_ascii_digit(h2[1]));
    assert(is_ascii_digit(m2[0]) && is_ascii_digit(m2[1]));
    let s = "с "@ + h1 + ":"@ + m1 + " до "@ + h2 + ":"@ + m2;
    assert(s.len() == 16);
    assert(s[0] == 'с' && s[1] == ' ' && s[2] == h1[0] && s[3] == h1[1] && s[4] == ':');
    assert(s[5] == m1[0] && s[6] == m1[1] && s[7] == ' ' && s[8] == 'д' && s[9] == 'о');
    assert(s[10] == ' ' && s[11] == h2[0] && s[12] == h2[1] && s[13] == ':' && s[14] == m2[0]
        && s[15] == m2[1]);
    assert(window_at(s, 0));
    assert(first_window_from(s, 0) == Some(0int));
    let f = h1 + ":"@ + m1;
    let t = h2 + ":"@ + m2;
    assert(f.len() == 5 && t.len() == 5);
    assert(f[2] == ':' && t[2] == ':');
    assert(occurs_at(f, seq![':'], 2)) by {
        assert(f.subrange(2, 3) =~= seq![':']);
    }
    assert(occurs_at(t, seq![':'], 2)) by {
        assert(t.subrange(2, 3) =~= seq![':']);
    }
    assert(!occurs_at(f, seq![':'], 0) && !occurs_at(f, seq![':'], 1)) by {
        assert(f.subrange(0, 1)[0] == h1[0]);
        assert(f.subrange(1, 2)[0] == h1[1]);
    }
    assert(!occurs_at(t, seq![':'], 0) && !occurs_at(t, seq![':'], 1)) by {
        assert(t.subrange(0, 1)[0] == h2[0]);
        assert(t.subrange(1, 2)[0] == h2[1]);
    }
    assert(first_occurrence_from(f, seq![':'], 2) == Some(2int));
    assert(first_occurrence_from(f, seq![':'], 1) == Some(2int));
    assert(first_occurrence_from(f, seq![':'], 0) == Some(2int));
    assert(first_occurrence_from(t, seq![':'], 2) == Some(2int));
    assert(first_occurrence_from(t, seq![':'], 1) == Some(2int));
    assert(first_occurrence_from(t, seq![':'], 0) == Some(2int));
    assert(f.subrange(0, 2) =~= h1);
    assert(f.subrange(3, 5) =~= m1);
    assert(t.subrange(0, 2) =~= h2);
    assert(t.subrange(3, 5) =~= m2);
    lemma_two_digit_number(h1);
    lemma_two_digit_number(m1);
    lemma_two_digit_number(h2);
    lemma_two_digit_number(m2);
    assert(two_digits(s, 2) == two_digits(h1, 0));
    assert(two_digits(s, 5) == two_digits(m1, 0));
    assert(two_digits(s, 11) == two_digits(h2, 0));
    assert(two_digits(s, 14) == two_digits(m2, 0));
}

fn window_at_exec(s: &[char], i: usize) -> (r: bool)
    ensures
        r == window_at(s@, i as int),
{
    if i > s.len() || s.len() - i < 16 {
        return false;
    }
    let d = |c: char| -> (r: bool)
        ensures
            r == is_ascii_digit(c),
        { '0' <= c && c <= '9' };
    s[i] == 'с' && s[i + 1] == ' ' && d(s[i + 2]) && d(s[i + 3]) && s[i + 4] == ':' && d(s[i + 5])
        && d(s[i + 6]) && s[i + 7] == ' ' && s[i + 8] == 'д' && s[i + 9] == 'о' && s[i + 10] == ' '
        && d(s[i + 11]) && d(s[i + 12]) && s[i + 13] == ':' && d(s[i + 14]) && d(s[i + 15])
}

fn two_digits_exec(s: &[char], i: usize) -> (r: u32)
    requires
        i + 1 < s.len(),
        is_ascii_digit(s@[i as int]),
        is_ascii_digit(s@[i + 1]),
    ensures
        r as int == two_digits(s@, i as int),
{
    10 * ((s[i] as u32) - ('0' as u32)) + ((s[i + 1] as u32) - ('0' as u32))
}

fn window_exec(fh: u32, fm: u32, th: u32, tm: u32) -> (r: Result<TimeConstrains, TimeConstrainsError>)
    ensures
        r == window_of(fh as int, fm as int, th as int, tm as int),
{
    match (Time::from_hms(fh, fm, 0), Time::from_hms(th, tm, 0)) {
        (Some(from), Some(to)) => Ok(TimeConstrains { from, to }),
        _ => Err(TimeConstrainsError::InvalidNaiveTime),
    }
}

fn split_time(s: &[char]) -> (r: (Vec<char>, Option<Vec<char>>))
    ensures
        r.0@ == hour_part(s@),
        match r.1 {
            Some(m) => minute_part(s@) == Some(m@),
            None => minute_part(s@) is None,
        },
{
    let n = s.len();
    let colon: Vec<char> = vec![':'];
    assert(colon@ =~= seq![':']);
    match find_from(s, colon.as_slice(), 0) {
        None => (slice_chars(s, 0, s.len()), None),
        Some(p) => {
            proof {
                lemma_first_occurrence(s@, seq![':'], 0);
            }
            let hour = slice_chars(s, 0, p);
            let rest = slice_chars(s, p + 1, n);
            assert(hour@ =~= s@.subrange(0, p as int));
            assert(rest@ =~= s@.subrange(p + 1, s@.len() as int));
            let minute = match find_from(rest.as_slice(), colon.as_slice(), 0) {
                None => slice_chars(rest.as_slice(), 0, rest.len()),
                Some(q) => {
                    proof {
                        lemma_first_occurrence(rest@, seq![':'], 0);
                    }
                    let m = slice_chars(rest.as_slice(), 0, q);
                    assert(m@ =~= rest@.subrange(0, q as int));
                    m
                },
            };
            (hour, Some(minute))
        },
    }
}

fn time_number_exec(s: &[char]) -> (r: Result<u32, TimeConstrainsError>)
    ensures
        match r {
            Ok(v) => time_number(s@) == Ok::<int, TimeConstrainsError>(v as int),
            Err(e) => time_number(s@) == Err::<int, TimeConstrainsError>(e),
        },
{
    match parse_u32(s) {
        Ok(v) => Ok(v),
        Err(_) => Err(TimeConstrainsError::FailedToParse),
    }
}

impl TimeConstrains {
    /// Reads the first `с HH:MM до HH:MM` in `text`.
    pub fn from(text: &str) -> (r: Result<TimeConstrains, TimeConstrainsError>)
        ensures
            r == window_from_text(text@),
    {
        let s = chars_of(text);
        let mut i: usize = 0;
        while i < s.len()
            invariant
                s@ == text@,
                first_window_from(s@, 0) == first_window_from(s@, i as int),
            decreases s.len() - i,
        {
            if window_at_exec(s.as_slice(), i) {
                assert(first_window_from(s@, i as int) == Some(i as int));
                return window_exec(
                    two_digits_exec(s.as_slice(), i + 2),
                    two_digits_exec(s.as_slice(), i + 5),
                    two_digits_exec(s.as_slice(), i + 11),
                    two_digits_exec(s.as_slice(), i + 14),
                );
            }
            i += 1;
        }
        assert(first_window_from(s@, i as int) is None);
        Err(TimeConstrainsError::NoMatch)
    }

    /// Reads a time window from its two ends, each written `HH:MM`.
    pub fn from_work_schedule(raw_from: &str, raw_to: &str) -> (r: Result<TimeConstrains, TimeConstrainsError>)
        ensures
            r == window_from_parts(raw_from@, raw_to@),
    {
        let f = chars_of(raw_from);
        let t = chars_of(raw_to);
        let (fh, fm) = split_time(f.as_slice());
        let (th, tm) = split_time(t.as_slice());
        let (fm, tm) = match (fm, tm) {
            (Some(a), Some(b)) => (a, b),
            _ => return Err(TimeConstrainsError::NoMinuteElement),
        };
        let fh = time_number_exec(fh.as_slice());
        let fm = time_number_exec(fm.as_slice());
        let th = time_number_exec(th.as_slice());
        let tm = time_number_exec(tm.as_slice());
        match (fh, fm, th, tm) {
            (Ok(a), Ok(b), Ok(c), Ok(d)) => window_exec(a, b, c, d),
            _ => Err(TimeConstrainsError::FailedToParse),
        }
    }
}

} // verus!
