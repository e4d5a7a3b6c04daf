//! Short comments of an order: a text that may end with its author and the
//! time it was written, `(author,YYYY-MM-DD HH:MM:SS)`.

use vstd::prelude::*;
use crate::data::datetime::{kyiv_datetime, kyiv_datetime_of, DateTime};
use crate::serializable_parse_error_kind::SerializableParseErrorKind;
use crate::text::{
    chars_of, is_ascii_digit, nonspace_run, nonspace_run_exec, normalize_markup,
    normalize_markup_exec, occurs_at, occurs_at_exec, slice_chars, string_of,
};

verus! {

/// Why a comment could not be read.
#[derive(Clone, PartialEq, Eq, PartialOrd, Ord, Debug, Hash)]
pub enum CommentError {
    /// The date-time of the comment's suffix could not be read.
    DateTimeFailed(String, SerializableParseErrorKind),
}

/// A comment: its text, and the author and time that its suffix gives.
#[derive(Clone, PartialEq, Eq, PartialOrd, Ord, Debug, Hash)]
pub struct Comment {
    pub text: String,
    pub user: Option<String>,
    pub datetime: Option<Result<DateTime, SerializableParseErrorKind>>,
}

pub struct CommentView {
    pub text: Seq<char>,
    pub user: Option<Seq<char>>,
    pub datetime: Option<Result<DateTime, SerializableParseErrorKind>>,
}

pub open spec fn opt_string_view(o: Option<String>) -> Option<Seq<char>> {
    match o {
        Some(s) => Some(s@),
        None => None,
    }
}

impl View for Comment {
    type V = CommentView;

    open spec fn view(&self) -> CommentView {
        CommentView { text: self.text@, user: opt_string_view(self.user), datetime: self.datetime }
    }
}

impl View for CommentError {
    type V = (Seq<char>, SerializableParseErrorKind);

    open spec fn view(&self) -> (Seq<char>, SerializableParseErrorKind) {
        match self {
            CommentError::DateTimeFailed(s, k) => (s@, *k),
        }
    }
}

/// A suffix found in a comment: where it starts and ends, and what it says.
pub struct Suffix {
    pub start: int,
    pub end: int,
    pub user: Seq<char>,
    pub datetime: Seq<char>,
}

/// Whether `YYYY-MM-DD HH:MM:SS` (ASCII digits) starts at `i`.
pub open spec fn datetime_at(s: Seq<char>, i: int) -> bool {
    &&& 0 <= i && i + 19 <= s.len()
    &&& forall|k: int|
        0 <= k < 19 && k != 4 && k != 7 && k != 10 && k != 13 && k != 16 ==> is_ascii_digit(
            #[trigger] s[i + k],
        )
    &&& s[i + 4] == '-' && s[i + 7] == '-' && s[i + 10] == ' ' && s[i + 13] == ':' && s[i + 16]
        == ':'
}

/// The suffix `(Система,<date-time>)` or `(<word> <word> <word>,<date-time>)`
/// that starts at `i`; the system author is tried first.
pub open spec fn suffix_at(s: Seq<char>, i: int) -> Option<Suffix> {
    if !(0 <= i < s.len() && s[i] == '(') {
        None
    } else if occurs_at(s, "Система"@, i + 1) && i + 8 < s.len() && s[i + 8] == ','
        && datetime_at(s, i + 9) && i + 28 < s.len() && s[i + 28] == ')' {
        Some(Suffix {
            start: i,
            end: i + 29,
            user: s.subrange(i + 1, i + 8),
            datetime: s.subrange(i + 9, i + 28),
        })
    } else {
        let t1 = nonspace_run(s, i + 1) as int;
        let b1 = i + 1 + t1;
        let t2 = nonspace_run(s, b1 + 1) as int;
        let b2 = b1 + 1 + t2;
        let r3 = nonspace_run(s, b2 + 1) as int;
        let e3 = b2 + 1 + r3;
        if t1 >= 1 && b1 < s.len() && s[b1] == ' ' && t2 >= 1 && b2 < s.len() && s[b2] == ' '
            && r3 >= 12 && s[e3 - 11] == ',' && datetime_at(s, e3 - 10) && e3 + 9 < s.len()
            && s[e3 + 9] == ')' {
            Some(Suffix {
                start: i,
                end: e3 + 10,
                user: s.subrange(i + 1, e3 - 11),
                datetime: s.subrange(e3 - 10, e3 + 9),
            })
        } else {
            None
        }
    }
}

/// The first suffix that starts at `from` or later.
pub open spec fn first_suffix_from(s: Seq<char>, from: int) -> Option<Suffix>
    decreases s.len() + 1 - from,
{
    if from < 0 || from >= s.len() {
        None
    } else if suffix_at(s, from) is Some {
        suffix_at(s, from)
    } else {
        first_suffix_from(s, from + 1)
    }
}

/// What a comment is: the text is decoded and its line breaks restored; the
/// first suffix is taken out of it, decoding once more, and gives the author
/// and the date-time in Europe/Kyiv. A suffix whose date-time cannot be read
/// makes the comment an error that carries that date-time and the cause.
pub open spec fn comment_of(raw: Seq<char>) -> Result<CommentView, (Seq<char>, SerializableParseErrorKind)> {
    let t = normalize_markup(raw);
    match first_suffix_from(t, 0) {
        Some(m) => match kyiv_datetime_of(m.datetime) {
            Ok(dt) => Ok(
                CommentView {
                    text: normalize_markup(t.subrange(0, m.start) + t.subrange(m.end, t.len() as int)),
                    user: Some(m.user),
                    datetime: Some(Ok(dt)),
                },
            ),
            Err(k) => Err((m.datetime, k)),
        },
        None => Ok(CommentView { text: normalize_markup(t), user: None, datetime: None }),
    }
}

fn datetime_at_exec(s: &[char], i: usize) -> (r: bool)
    ensures
        r == datetime_at(s@, i as int),
{
    if i > s.len() || s.len() - i < 19 {
        return false;
    }
    let mut k: usize = 0;
    while k < 19
        invariant
            i + 19 <= s.len(),
            0 <= k <= 19,
            forall|j: int|
                0 <= j < k && j != 4 && j != 7 && j != 10 && j != 13 && j != 16 ==> is_ascii_digit(
                    #[trigger] s@[i + j],
                ),
        decreases 19 - k,
    {
        if k != 4 && k != 7 && k != 10 && k != 13 && k != 16 {
            let c = s[i + k];
            if !('0' <= c && c <= '9') {
                return false;
            }
        }
        k += 1;
    }
    s[i + 4] == '-' && s[i + 7] == '-' && s[i + 10] == ' ' && s[i + 13] == ':' && s[i + 16] == ':'
}

/// The suffix at `i`, as (end, user start, user end, date-time start).
fn suffix_at_exec(s: &[char], i: usize) -> (r: Option<(usize, usize, usize, usize)>)
    ensures
        match r {
            Some((end, us, ue, ds)) => suffix_at(s@, i as int) == Some(
                Suffix {
                    start: i as int,
                    end: end as int,
                    user: s@.subrange(us as int, ue as int),
                    datetime: s@.subrange(ds as int, ds + 19),
                },
            ) && i < us <= ue <= ds && ds + 19 < end <= s.len(),
            None => suffix_at(s@, i as int) is None,
        },
{
    let n = s.len();
    if !(i < n && s[i] == '(') {
        return None;
    }
    let system = chars_of("Система");
    proof {
        reveal_strlit("Система");
    }
    if occurs_at_exec(s, system.as_slice(), i + 1) && i + 8 < n && s[i + 8] == ','
        && datetime_at_exec(s, i + 9) && i + 28 < n && s[i + 28] == ')' {
        return Some((i + 29, i + 1, i + 8, i + 9));
    }
    if i + 1 > n {
        return None;
    }
    let t1 = nonspace_run_exec(s, i + 1);
    let b1 = i + 1 + t1;
    if !(t1 >= 1 && b1 < n && s[b1] == ' ') {
        return None;
    }
    let t2 = nonspace_run_exec(s, b1 + 1);
    let b2 = b1 + 1 + t2;
    if !(t2 >= 1 && b2 < n && s[b2] == ' ') {
        return None;
    }
    let r3 = nonspace_run_exec(s, b2 + 1);
    let e3 = b2 + 1 + r3;
    if r3 >= 12 && s[e3 - 11] == ',' && datetime_at_exec(s, e3 - 10) && e3 + 9 < n && s[e3 + 9]
        == ')' {
        Some((e3 + 10, i + 1, e3 - 11, e3 - 10))
    } else {
        None
    }
}

/// The first suffix of an already decoded comment text, as (start, end,
/// author, date-time), as [`first_suffix_from`] says.
pub fn comment_suffix(t: &[char]) -> (r: Option<(usize, usize, Vec<char>, Vec<char>)>)
    ensures
        match r {
            Some((start, end, user, stamp)) => first_suffix_from(t@, 0) == Some(
                Suffix { start: start as int, end: end as int, user: user@, datetime: stamp@ },
            ) && start < end <= t@.len(),
            None => first_suffix_from(t@, 0) is None,
        },
{
    let n = t.len();
    let mut i: usize = 0;
    while i < n
        invariant
            n == t@.len(),
            first_suffix_from(t@, 0) == first_suffix_from(t@, i as int),
        decreases n - i,
    {
        match suffix_at_exec(t, i) {
            Some((end, us, ue, ds)) => {
                return Some((i, end, slice_chars(t, us, ue), slice_chars(t, ds, ds + 19)));
            },
            None => {},
        }
        i += 1;
    }
    None
}

impl Comment {
    /// Reads a comment as [`comment_of`] says.
    pub fn from(raw_text: &str) -> (r: Result<Comment, CommentError>)
        ensures
            match r {
                Ok(c) => comment_of(raw_text@) == Ok::<CommentView, (Seq<char>, SerializableParseErrorKind)>(c@),
                Err(e) => comment_of(raw_text@) == Err::<CommentView, (Seq<char>, SerializableParseErrorKind)>(e@),
            },
    {
        let raw = chars_of(raw_text);
        let t = normalize_markup_exec(raw.as_slice());
        let n = t.len();
        match comment_suffix(t.as_slice()) {
            Some((start, end, user, stamp)) => {
                let stamp = string_of(stamp.as_slice());
                match kyiv_datetime(stamp.as_str()) {
                    Ok(dt) => {
                        let mut rest = slice_chars(t.as_slice(), 0, start);
                        let mut tail = slice_chars(t.as_slice(), end, n);
                        rest.append(&mut tail);
                        let text = normalize_markup_exec(rest.as_slice());
                        Ok(
                            Comment {
                                text: string_of(text.as_slice()),
                                user: Some(string_of(user.as_slice())),
                                datetime: Some(Ok(dt)),
                            },
                        )
                    },
                    Err(k) => Err(CommentError::DateTimeFailed(stamp, k)),
                }
            },
            None => {
                let text = normalize_markup_exec(t.as_slice());
                Ok(Comment { text: string_of(text.as_slice()), user: None, datetime: None })
            },
        }
    }
}

} // verus!
