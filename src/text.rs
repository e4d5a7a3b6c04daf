//! Character-level helpers shared by the field parsers.

use vstd::prelude::*;

verus! {

/// Relies on `str::chars`: the characters of `s`, in order.
#[verifier::external_body]
pub fn chars_of(s: &str) -> (r: Vec<char>)
    ensures
        r@ == s@,
{
    s.chars().collect()
}

/// Relies on `FromIterator<char>` for `String`: the characters of `v`, in order.
#[verifier::external_body]
pub fn string_of(v: &[char]) -> (r: String)
    ensures
        r@ == v@,
{
    v.iter().collect()
}

pub open spec fn is_ascii_digit(c: char) -> bool {
    '0' <= c && c <= '9'
}

/// The characters with the Unicode `White_Space` property.
pub open spec fn is_whitespace(c: char) -> bool {
    ('\u{9}' <= c && c <= '\u{d}') || c == ' ' || c == '\u{85}' || c == '\u{a0}'
        || c == '\u{1680}' || ('\u{2000}' <= c && c <= '\u{200a}') || c == '\u{2028}'
        || c == '\u{2029}' || c == '\u{202f}' || c == '\u{205f}' || c == '\u{3000}'
}

pub fn is_whitespace_char(c: char) -> (r: bool)
    ensures
        r == is_whitespace(c),
{
    ('\u{9}' <= c && c <= '\u{d}') || c == ' ' || c == '\u{85}' || c == '\u{a0}'
        || c == '\u{1680}' || ('\u{2000}' <= c && c <= '\u{200a}') || c == '\u{2028}'
        || c == '\u{2029}' || c == '\u{202f}' || c == '\u{205f}' || c == '\u{3000}'
}

/// Whether `pat` occurs in `s` at position `i`.
pub open spec fn occurs_at(s: Seq<char>, pat: Seq<char>, i: int) -> bool {
    0 <= i && i + pat.len() <= s.len() && s.subrange(i, i + pat.len()) == pat
}

pub open spec fn contains_seq(s: Seq<char>, pat: Seq<char>) -> bool {
    exists|i: int| occurs_at(s, pat, i)
}

pub fn seq_equal(a: &[char], b: &[char]) -> (r: bool)
    ensures
        r == (a@ == b@),
{
    if a.len() != b.len() {
        return false;
    }
    let mut i: usize = 0;
    while i < a.len()
        invariant
            a@.len() == b@.len(),
            0 <= i <= a@.len(),
            forall|j: int| 0 <= j < i ==> a@[j] == b@[j],
        decreases a.len() - i,
    {
        if a[i] != b[i] {
            return false;
        }
        i += 1;
    }
    assert(a@ =~= b@);
    true
}

pub fn occurs_at_exec(s: &[char], pat: &[char], i: usize) -> (r: bool)
    ensures
        r == occurs_at(s@, pat@, i as int),
{
    if i > s.len() || pat.len() > s.len() - i {
        return false;
    }
    let mut j: usize = 0;
    while j < pat.len()
        invariant
            i + pat.len() <= s.len(),
            0 <= j <= pat.len(),
            forall|k: int| 0 <= k < j ==> s@[i + k] == pat@[k],
        decreases pat.len() - j,
    {
        if s[i + j] != pat[j] {
            assert(s@.subrange(i as int, i + pat@.len())[j as int] != pat@[j as int]);
            return false;
        }
        j += 1;
    }
    assert(s@.subrange(i as int, i + pat@.len()) =~= pat@);
    true
}

/// Position of the first occurrence of `pat` in `s` at or after `from`.
pub open spec fn first_occurrence_from(s: Seq<char>, pat: Seq<char>, from: int) -> Option<int>
    decreases s.len() + 1 - from,
{
    if from < 0 || from + pat.len() > s.len() {
        None
    } else if occurs_at(s, pat, from) {
        Some(from)
    } else {
        first_occurrence_from(s, pat, from + 1)
    }
}

pub proof fn lemma_first_occurrence(s: Seq<char>, pat: Seq<char>, from: int)
    requires
        0 <= from,
    ensures
        first_occurrence_from(s, pat, from) is None <==> (forall|i: int|
            from <= i ==> !occurs_at(s, pat, i)),
        first_occurrence_from(s, pat, from) matches Some(k) ==> from <= k && occurs_at(s, pat, k)
            && forall|i: int| from <= i < k ==> !occurs_at(s, pat, i),
    decreases s.len() + 1 - from,
{
    if from + pat.len() > s.len() {
    } else if occurs_at(s, pat, from) {
    } else {
        lemma_first_occurrence(s, pat, from + 1);
        assert forall|i: int| from <= i < from + 1 implies !occurs_at(s, pat, i) by {}
    }
}

pub fn find_from(s: &[char], pat: &[char], from: usize) -> (r: Option<usize>)
    ensures
        r matches Some(k) ==> first_occurrence_from(s@, pat@, from as int) == Some(k as int),
        r is None ==> first_occurrence_from(s@, pat@, from as int) is None,
{
    if from > s.len() || pat.len() > s.len() - from {
        return None;
    }
    let mut i = from;
    loop
        invariant
            from <= i,
            i + pat.len() <= s.len(),
            first_occurrence_from(s@, pat@, from as int) == first_occurrence_from(
                s@,
                pat@,
                i as int,
            ),
        decreases s.len() - i,
    {
        if occurs_at_exec(s, pat, i) {
            return Some(i);
        }
        if i + pat.len() == s.len() {
            assert(first_occurrence_from(s@, pat@, i + 1) is None);
            return None;
        }
        i += 1;
    }
}

pub fn contains_exec(s: &[char], pat: &[char]) -> (r: bool)
    ensures
        r == contains_seq(s@, pat@),
{
    let r = find_from(s, pat, 0);
    proof {
        lemma_first_occurrence(s@, pat@, 0);
    }
    r.is_some()
}


/// Every non-overlapping occurrence of `pat`, taken from the left, replaced
/// by `rep`.
pub open spec fn replace_all(s: Seq<char>, pat: Seq<char>, rep: Seq<char>) -> Seq<char>
    decreases s.len(),
{
    if pat.len() == 0 || s.len() < pat.len() {
        s
    } else if s.subrange(0, pat.len() as int) == pat {
        rep + replace_all(s.subrange(pat.len() as int, s.len() as int), pat, rep)
    } else {
        seq![s[0]] + replace_all(s.subrange(1, s.len() as int), pat, rep)
    }
}

pub fn replace_all_exec(s: &[char], pat: &[char], rep: &[char]) -> (r: Vec<char>)
    ensures
        r@ == replace_all(s@, pat@, rep@),
{
    let mut out: Vec<char> = Vec::new();
    let mut i: usize = 0;
    assert(s@.subrange(0, s@.len() as int) =~= s@);
    assert(out@ + replace_all(s@, pat@, rep@) =~= replace_all(s@, pat@, rep@));
    while i < s.len()
        invariant
            0 <= i <= s.len(),
            out@ + replace_all(s@.subrange(i as int, s@.len() as int), pat@, rep@) == replace_all(
                s@,
                pat@,
                rep@,
            ),
        decreases s.len() - i,
    {
        let ghost rest = s@.subrange(i as int, s@.len() as int);
        if pat.len() > 0 && pat.len() <= s.len() - i && occurs_at_exec(s, pat, i) {
            assert(rest.subrange(0, pat@.len() as int) =~= s@.subrange(i as int, i + pat@.len()));
            assert(rest.subrange(pat@.len() as int, rest.len() as int) =~= s@.subrange(
                i + pat@.len(),
                s@.len() as int,
            ));
            let mut k: usize = 0;
            let ghost before = out@;
            while k < rep.len()
                invariant
                    0 <= k <= rep.len(),
                    out@ == before + rep@.subrange(0, k as int),
                decreases rep.len() - k,
            {
                out.push(rep[k]);
                k += 1;
                assert(out@ =~= before + rep@.subrange(0, k as int));
            }
            assert(rep@.subrange(0, rep@.len() as int) =~= rep@);
            assert(out@ + replace_all(s@.subrange(i + pat@.len(), s@.len() as int), pat@, rep@)
                =~= before + replace_all(rest, pat@, rep@));
            i = i + pat.len();
        } else {
            if pat.len() > 0 && pat.len() <= s.len() - i {
                assert(rest.subrange(0, pat@.len() as int) =~= s@.subrange(
                    i as int,
                    i + pat@.len(),
                ));
            }
            assert(rest.subrange(1, rest.len() as int) =~= s@.subrange(i + 1, s@.len() as int));
            let ghost before = out@;
            out.push(s[i]);
            proof {
                if pat@.len() == 0 || rest.len() < pat@.len() {
                    assert(replace_all(rest, pat@, rep@) == rest);
                    assert(replace_all(rest.subrange(1, rest.len() as int), pat@, rep@)
                        == rest.subrange(1, rest.len() as int));
                    assert(rest =~= seq![s@[i as int]] + rest.subrange(1, rest.len() as int));
                }
            }
            assert(out@ + replace_all(s@.subrange(i + 1, s@.len() as int), pat@, rep@)
                =~= before + replace_all(rest, pat@, rep@));
            i = i + 1;
        }
    }
    assert(s@.subrange(i as int, s@.len() as int) =~= Seq::<char>::empty());
    assert(out@ + Seq::<char>::empty() =~= out@);
    out
}

/// `s` without the characters that `drop` holds.
pub open spec fn remove_chars(s: Seq<char>, drop: Seq<char>) -> Seq<char>
    decreases s.len(),
{
    if s.len() == 0 {
        s
    } else if drop.contains(s.last()) {
        remove_chars(s.drop_last(), drop)
    } else {
        remove_chars(s.drop_last(), drop).push(s.last())
    }
}

pub fn remove_chars_exec(s: &[char], drop: &[char]) -> (r: Vec<char>)
    ensures
        r@ == remove_chars(s@, drop@),
{
    let mut out: Vec<char> = Vec::new();
    let mut i: usize = 0;
    while i < s.len()
        invariant
            0 <= i <= s.len(),
            out@ == remove_chars(s@.subrange(0, i as int), drop@),
        decreases s.len() - i,
    {
        let c = s[i];
        let mut found = false;
        let mut k: usize = 0;
        while k < drop.len()
            invariant
                0 <= k <= drop.len(),
                found == (exists|j: int| 0 <= j < k && drop@[j] == c),
            decreases drop.len() - k,
        {
            if drop[k] == c {
                found = true;
            }
            k += 1;
        }
        assert(s@.subrange(0, i + 1).drop_last() =~= s@.subrange(0, i as int));
        if !found {
            out.push(c);
        }
        i += 1;
    }
    assert(s@.subrange(0, s@.len() as int) =~= s@);
    out
}

/// Length of the run of whitespace at the start of `s`.
pub open spec fn leading_ws(s: Seq<char>) -> nat
    decreases s.len(),
{
    if s.len() > 0 && is_whitespace(s[0]) {
        1 + leading_ws(s.subrange(1, s.len() as int))
    } else {
        0
    }
}

/// Length of the run of whitespace at the end of `s`.
pub open spec fn trailing_ws(s: Seq<char>) -> nat
    decreases s.len(),
{
    if s.len() > 0 && is_whitespace(s.last()) {
        1 + trailing_ws(s.drop_last())
    } else {
        0
    }
}

/// `s` with leading and trailing whitespace removed.
pub open spec fn trim(s: Seq<char>) -> Seq<char> {
    let t = s.subrange(leading_ws(s) as int, s.len() as int);
    t.subrange(0, t.len() - trailing_ws(t))
}

proof fn lemma_leading_ws(s: Seq<char>, i: int)
    requires
        0 <= i <= s.len(),
        forall|j: int| 0 <= j < i ==> is_whitespace(s[j]),
    ensures
        leading_ws(s) == i + leading_ws(s.subrange(i, s.len() as int)),
    decreases i,
{
    if i > 0 {
        let t = s.subrange(1, s.len() as int);
        lemma_leading_ws(t, i - 1);
        assert(t.subrange(i - 1, t.len() as int) =~= s.subrange(i, s.len() as int));
    } else {
        assert(s.subrange(0, s.len() as int) =~= s);
    }
}

proof fn lemma_trailing_ws(s: Seq<char>, n: int)
    requires
        0 <= n <= s.len(),
        forall|j: int| s.len() - n <= j < s.len() ==> is_whitespace(s[j]),
    ensures
        trailing_ws(s) == n + trailing_ws(s.subrange(0, s.len() - n)),
    decreases n,
{
    if n > 0 {
        lemma_trailing_ws(s.drop_last(), n - 1);
        assert(s.drop_last().subrange(0, s.drop_last().len() - (n - 1)) =~= s.subrange(
            0,
            s.len() - n,
        ));
    } else {
        assert(s.subrange(0, s.len() as int) =~= s);
    }
}

pub fn trim_exec(s: &[char]) -> (r: Vec<char>)
    ensures
        r@ == trim(s@),
{
    let mut a: usize = 0;
    while a < s.len() && is_whitespace_char(s[a])
        invariant
            0 <= a <= s.len(),
            forall|j: int| 0 <= j < a ==> is_whitespace(s@[j]),
        decreases s.len() - a,
    {
        a += 1;
    }
    proof {
        lemma_leading_ws(s@, a as int);
    }
    let ghost t = s@.subrange(a as int, s@.len() as int);
    let mut b: usize = s.len();
    while b > a && is_whitespace_char(s[b - 1])
        invariant
            a <= b <= s.len(),
            forall|j: int| b <= j < s.len() ==> is_whitespace(s@[j]),
        decreases b,
    {
        b -= 1;
    }
    proof {
        assert(leading_ws(t) == 0);
        assert(trim(s@) == t.subrange(0, t.len() - trailing_ws(t)));
        lemma_trailing_ws(t, (s.len() - b) as int);
        let u = t.subrange(0, t.len() - (s.len() - b));
        if u.len() > 0 {
            assert(!is_whitespace(u.last()));
        }
        assert(trailing_ws(u) == 0);
    }
    let mut out: Vec<char> = Vec::new();
    let mut i = a;
    while i < b
        invariant
            a <= i <= b,
            b <= s.len(),
            out@ == s@.subrange(a as int, i as int),
        decreases b - i,
    {
        out.push(s[i]);
        i += 1;
        assert(out@ =~= s@.subrange(a as int, i as int));
    }
    assert(out@ =~= t.subrange(0, t.len() - trailing_ws(t)));
    out
}


/// Whether `c` holds exactly the characters of `lit`.
pub fn is_literal(c: &[char], lit: &str) -> (r: bool)
    ensures
        r == (c@ == lit@),
{
    let l = chars_of(lit);
    seq_equal(c, l.as_slice())
}

/// Whether `lit` occurs in `c`.
pub fn contains_literal(c: &[char], lit: &str) -> (r: bool)
    ensures
        r == contains_seq(c@, lit@),
{
    let l = chars_of(lit);
    contains_exec(c, l.as_slice())
}


/// The characters of `s` from position `a` up to `b`.
pub fn slice_chars(s: &[char], a: usize, b: usize) -> (r: Vec<char>)
    requires
        a <= b <= s.len(),
    ensures
        r@ == s@.subrange(a as int, b as int),
{
    let mut out: Vec<char> = Vec::new();
    let mut i = a;
    while i < b
        invariant
            a <= i <= b,
            b <= s.len(),
            out@ == s@.subrange(a as int, i as int),
        decreases b - i,
    {
        out.push(s[i]);
        i += 1;
        assert(out@ =~= s@.subrange(a as int, i as int));
    }
    out
}


/// The last position at or before `i` where `pat` occurs.
pub open spec fn last_occurrence_from(s: Seq<char>, pat: Seq<char>, i: int) -> Option<int>
    decreases i + 1,
{
    if i < 0 {
        None
    } else if occurs_at(s, pat, i) {
        Some(i)
    } else {
        last_occurrence_from(s, pat, i - 1)
    }
}

/// The last position where `pat` occurs in `s`.
pub open spec fn last_occurrence(s: Seq<char>, pat: Seq<char>) -> Option<int> {
    last_occurrence_from(s, pat, s.len() - pat.len())
}

pub proof fn lemma_last_occurrence_from(s: Seq<char>, pat: Seq<char>, i: int)
    ensures
        last_occurrence_from(s, pat, i) matches Some(k) ==> 0 <= k <= i && occurs_at(s, pat, k),
    decreases i + 1,
{
    if i >= 0 && !occurs_at(s, pat, i) {
        lemma_last_occurrence_from(s, pat, i - 1);
    }
}

pub fn rfind(s: &[char], pat: &[char]) -> (r: Option<usize>)
    ensures
        r matches Some(k) ==> last_occurrence(s@, pat@) == Some(k as int) && k + pat@.len()
            <= s@.len(),
        r is None ==> last_occurrence(s@, pat@) is None,
{
    if pat.len() > s.len() {
        return None;
    }
    let mut i: usize = s.len() - pat.len();
    loop
        invariant
            i + pat.len() <= s.len(),
            last_occurrence(s@, pat@) == last_occurrence_from(s@, pat@, i as int),
        decreases i,
    {
        if occurs_at_exec(s, pat, i) {
            return Some(i);
        }
        if i == 0 {
            assert(last_occurrence_from(s@, pat@, -1) is None);
            return None;
        }
        i -= 1;
    }
}

/// Length of the run of characters that are no whitespace, from `i` on.
pub open spec fn nonspace_run(s: Seq<char>, i: int) -> nat
    decreases s.len() - i,
{
    if 0 <= i < s.len() && !is_whitespace(s[i]) {
        1 + nonspace_run(s, i + 1)
    } else {
        0
    }
}

/// Length of the run of whitespace, from `i` on.
pub open spec fn space_run(s: Seq<char>, i: int) -> nat
    decreases s.len() - i,
{
    if 0 <= i < s.len() && is_whitespace(s[i]) {
        1 + space_run(s, i + 1)
    } else {
        0
    }
}

pub proof fn lemma_nonspace_run(s: Seq<char>, i: int, k: int)
    requires
        0 <= i <= k <= i + nonspace_run(s, i),
        i <= s.len(),
    ensures
        nonspace_run(s, i) == (k - i) + nonspace_run(s, k),
        i + nonspace_run(s, i) <= s.len(),
        forall|j: int| i <= j < i + nonspace_run(s, i) ==> !is_whitespace(#[trigger] s[j]),
    decreases s.len() - i,
{
    if 0 <= i < s.len() && !is_whitespace(s[i]) {
        if k > i {
            lemma_nonspace_run(s, i + 1, k);
        } else {
            lemma_nonspace_run(s, i + 1, i + 1);
        }
    }
}

pub fn nonspace_run_exec(s: &[char], i: usize) -> (r: usize)
    requires
        i <= s.len(),
    ensures
        r == nonspace_run(s@, i as int),
        i + r <= s.len(),
{
    let mut k = i;
    while k < s.len() && !is_whitespace_char(s[k])
        invariant
            i <= k <= s.len(),
            nonspace_run(s@, i as int) == (k - i) + nonspace_run(s@, k as int),
        decreases s.len() - k,
    {
        k += 1;
    }
    k - i
}

pub fn space_run_exec(s: &[char], i: usize) -> (r: usize)
    requires
        i <= s.len(),
    ensures
        r == space_run(s@, i as int),
        i + r <= s.len(),
{
    let mut k = i;
    while k < s.len() && is_whitespace_char(s[k])
        invariant
            i <= k <= s.len(),
            space_run(s@, i as int) == (k - i) + space_run(s@, k as int),
        decreases s.len() - k,
    {
        k += 1;
    }
    k - i
}


/// What html-escape's `decode_html_entities` makes of a text.
pub uninterp spec fn html_decoded(s: Seq<char>) -> Seq<char>;

/// Relies on html-escape's `decode_html_entities`: named and numeric
/// character references replaced by the characters they stand for.
#[verifier::external_body]
pub fn decode_html(s: &[char]) -> (r: Vec<char>)
    ensures
        r@ == html_decoded(s@),
{
    let text: String = s.iter().collect();
    html_escape::decode_html_entities(&text).chars().collect()
}

/// A text with its character references decoded and each `<br/>` made a
/// line break.
pub open spec fn normalize_markup(s: Seq<char>) -> Seq<char> {
    replace_all(html_decoded(s), "<br/>"@, "\n"@)
}

pub fn normalize_markup_exec(s: &[char]) -> (r: Vec<char>)
    ensures
        r@ == normalize_markup(s@),
{
    let d = decode_html(s);
    let br = chars_of("<br/>");
    let nl = chars_of("\n");
    replace_all_exec(d.as_slice(), br.as_slice(), nl.as_slice())
}


/// What `str::to_lowercase` makes of a text.
pub uninterp spec fn lowercase_of(s: Seq<char>) -> Seq<char>;

/// Relies on `str::to_lowercase`: the lowercase mapping of each character.
#[verifier::external_body]
pub fn lowercase(s: &[char]) -> (r: Vec<char>)
    ensures
        r@ == lowercase_of(s@),
{
    let text: String = s.iter().collect();
    text.to_lowercase().chars().collect()
}

/// The pieces joined, with `sep` between each two.
pub open spec fn join(pieces: Seq<Seq<char>>, sep: Seq<char>) -> Seq<char>
    decreases pieces.len(),
{
    if pieces.len() == 0 {
        Seq::empty()
    } else if pieces.len() == 1 {
        pieces[0]
    } else {
        join(pieces.drop_last(), sep) + sep + pieces.last()
    }
}


/// The part of `s` before its first `c`, or all of `s`.
pub open spec fn until_char(s: Seq<char>, c: char) -> Seq<char> {
    match first_occurrence_from(s, seq![c], 0) {
        Some(p) => s.subrange(0, p),
        None => s,
    }
}

/// The parts of `s` before and after its first `c`; none without a `c`.
pub open spec fn split_first(s: Seq<char>, c: char) -> Option<(Seq<char>, Seq<char>)> {
    match first_occurrence_from(s, seq![c], 0) {
        Some(p) => Some((s.subrange(0, p), s.subrange(p + 1, s.len() as int))),
        None => None,
    }
}

pub fn split_first_exec(s: &[char], c: char) -> (r: Option<(Vec<char>, Vec<char>)>)
    ensures
        match r {
            Some((a, b)) => split_first(s@, c) == Some((a@, b@)),
            None => split_first(s@, c) is None,
        },
{
    let n = s.len();
    let pat: Vec<char> = vec![c];
    assert(pat@ =~= seq![c]);
    match find_from(s, pat.as_slice(), 0) {
        Some(p) => {
            proof {
                lemma_first_occurrence(s@, seq![c], 0);
            }
            Some((slice_chars(s, 0, p), slice_chars(s, p + 1, n)))
        },
        None => None,
    }
}

pub fn until_char_exec(s: &[char], c: char) -> (r: Vec<char>)
    ensures
        r@ == until_char(s@, c),
{
    let n = s.len();
    let pat: Vec<char> = vec![c];
    assert(pat@ =~= seq![c]);
    match find_from(s, pat.as_slice(), 0) {
        Some(p) => {
            proof {
                lemma_first_occurrence(s@, seq![c], 0);
            }
            slice_chars(s, 0, p)
        },
        None => {
            let r = slice_chars(s, 0, n);
            assert(r@ =~= s@);
            r
        },
    }
}

/// Where the line that holds position `p` starts.
pub open spec fn line_start(s: Seq<char>, p: int) -> int
    decreases p,
{
    if p <= 0 {
        0
    } else if s[p - 1] == '\n' {
        p
    } else {
        line_start(s, p - 1)
    }
}

/// Where the line that holds position `p` ends (its line break excluded).
pub open spec fn line_end(s: Seq<char>, p: int) -> int
    decreases s.len() - p,
{
    if p >= s.len() || p < 0 {
        s.len() as int
    } else if s[p] == '\n' {
        p
    } else {
        line_end(s, p + 1)
    }
}

pub proof fn lemma_line_start(s: Seq<char>, p: int)
    requires
        0 <= p <= s.len(),
    ensures
        0 <= line_start(s, p) <= p,
    decreases p,
{
    if p > 0 && s[p - 1] != '\n' {
        lemma_line_start(s, p - 1);
    }
}

pub proof fn lemma_line_end(s: Seq<char>, p: int)
    requires
        0 <= p <= s.len(),
    ensures
        p <= line_end(s, p) <= s.len(),
    decreases s.len() - p,
{
    if p < s.len() && s[p] != '\n' {
        lemma_line_end(s, p + 1);
    }
}

} // verus!
