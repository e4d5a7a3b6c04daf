//! Client's address.

use vstd::prelude::*;
use crate::text::{
    chars_of, is_whitespace, lemma_line_end, lemma_line_start, line_end, line_start, nonspace_run,
    nonspace_run_exec, occurs_at, occurs_at_exec, remove_chars, remove_chars_exec, replace_all,
    replace_all_exec, space_run, space_run_exec, string_of, slice_chars,
};

verus! {

/// Why an address line could not be read.
#[derive(Clone, Copy, PartialEq, Eq, Structural, PartialOrd, Ord, Debug, Hash)]
pub enum AddressError {
    /// The text does not have the shape `city, street д.building, кв.apartment`.
    NoMatch,
}

/// A client's address. Building and apartment may hold letters (`19А`).
#[derive(Clone, PartialEq, Eq, PartialOrd, Ord, Debug, Hash)]
pub struct Address {
    pub city: String,
    pub street: String,
    pub building: String,
    pub apartment: String,
}

pub struct AddressView {
    pub city: Seq<char>,
    pub street: Seq<char>,
    pub building: Seq<char>,
    pub apartment: Seq<char>,
}

impl View for Address {
    type V = AddressView;

    open spec fn view(&self) -> AddressView {
        AddressView {
            city: self.city@,
            street: self.street@,
            building: self.building@,
            apartment: self.apartment@,
        }
    }
}

/// A street name with its known misspellings corrected: double spaces and
/// the word `вулиця ` dropped, `Зернова (Ленінський)` shortened to `Зернова`.
pub open spec fn transform_street(s: Seq<char>) -> Seq<char> {
    replace_all(
        replace_all(replace_all(s, "  "@, Seq::empty()), "вулиця "@, Seq::empty()),
        "Зернова (Ленінський)"@,
        "Зернова"@,
    )
}

/// The characters that a serialised apartment number carries around it.
pub open spec fn apartment_artifacts() -> Seq<char> {
    seq!['u', 'k', '{', ':', '\'', ' ']
}

/// An address made from its four parts, the street corrected and the
/// apartment cleaned of serialisation artifacts.
pub open spec fn address_from_parts(
    city: Seq<char>,
    street: Seq<char>,
    building: Seq<char>,
    apartment: Seq<char>,
) -> AddressView {
    AddressView {
        city,
        street: transform_street(street),
        building,
        apartment: remove_chars(apartment, apartment_artifacts()),
    }
}

/// The pieces of an address line `city,<spaces>street д.building, кв.tail`.
pub struct AddressLine {
    /// What precedes the city.
    pub lead: Seq<char>,
    pub city: Seq<char>,
    pub spaces: Seq<char>,
    pub street: Seq<char>,
    pub building: Seq<char>,
    /// Empty, or the `{'uk': '` that a serialised apartment starts with.
    pub wrapper: Seq<char>,
    pub apartment: Seq<char>,
    /// What follows the apartment.
    pub rest: Seq<char>,
}

pub open spec fn apartment_marker() -> Seq<char> {
    ", кв."@
}

pub open spec fn building_marker() -> Seq<char> {
    " д."@
}

pub open spec fn wrapper_prefix() -> Seq<char> {
    "{'uk': '"@
}

/// The last position of `'` in `t` before `end`, at `from` or later.
pub open spec fn last_quote_from(t: Seq<char>, from: int, i: int) -> Option<int>
    decreases i + 1 - from,
{
    if i < from {
        None
    } else if t[i] == '\'' {
        Some(i)
    } else {
        last_quote_from(t, from, i - 1)
    }
}

/// How the text after `кв.` gives the apartment: inside the serialisation
/// wrapper `{'uk': 'X'`, X running to the last quote of the word; otherwise
/// the word itself. The result is (wrapper, apartment, rest).
pub open spec fn apartment_split(t: Seq<char>) -> Option<(Seq<char>, Seq<char>, Seq<char>)> {
    let w = wrapper_prefix();
    let quote = if occurs_at(t, w, 0) {
        last_quote_from(t, w.len() + 1int, w.len() + nonspace_run(t, w.len() as int) - 1int)
    } else {
        None
    };
    match quote {
        Some(q) => Some((w, t.subrange(w.len() as int, q), t.subrange(q, t.len() as int))),
        None => if nonspace_run(t, 0) >= 1 {
            let n = nonspace_run(t, 0) as int;
            Some((Seq::empty(), t.subrange(0, n), t.subrange(n, t.len() as int)))
        } else {
            None
        },
    }
}

/// Whether ` д.` follows at `d` with a building and `, кв.` and an
/// apartment after it; if so, where the building ends, and the apartment's
/// pieces. A building is one word, so it ends where `, кв.` starts.
pub open spec fn tail_at(s: Seq<char>, d: int) -> Option<(int, (Seq<char>, Seq<char>, Seq<char>))> {
    if occurs_at(s, building_marker(), d) && nonspace_run(s, d + 3) >= 2 && occurs_at(
        s,
        apartment_marker(),
        d + 3 + nonspace_run(s, d + 3) - 1,
    ) {
        let b = d + 3 + nonspace_run(s, d + 3) - 1;
        match apartment_split(s.subrange(b + 5, s.len() as int)) {
            Some(parts) => Some((b, parts)),
            None => None,
        }
    } else {
        None
    }
}

/// The last end at `d` or before, and after `p`, of a street that starts at
/// `p` and has a building and an apartment after it.
pub open spec fn street_end_from(s: Seq<char>, p: int, d: int) -> Option<int>
    decreases d - p,
{
    if d <= p {
        None
    } else if tail_at(s, d) is Some {
        Some(d)
    } else {
        street_end_from(s, p, d - 1)
    }
}

/// The end of the longest street that starts at `p`: a street stays on its
/// line.
pub open spec fn street_end(s: Seq<char>, p: int) -> Option<int> {
    street_end_from(s, p, line_end(s, p))
}

/// The longest run of at most `w` spaces after the comma at `c` that a street
/// can follow, with that street's end.
pub open spec fn spaces_from(s: Seq<char>, c: int, w: int) -> Option<(int, int)>
    decreases w,
{
    if w < 1 {
        None
    } else {
        match street_end(s, c + 1 + w) {
            Some(d) => Some((w, d)),
            None => spaces_from(s, c, w - 1),
        }
    }
}

/// What follows a comma at `c` that ends a city: the length of the spaces
/// and the end of the street.
pub open spec fn after_comma(s: Seq<char>, c: int) -> Option<(int, int)> {
    if 0 <= c < s.len() && s[c] == ',' {
        spaces_from(s, c, space_run(s, c + 1) as int)
    } else {
        None
    }
}

/// Whether the comma at `c` can end a city that starts on its line.
pub open spec fn city_comma(s: Seq<char>, c: int) -> bool {
    c > line_start(s, c) && after_comma(s, c) is Some
}

pub open spec fn first_city_comma(s: Seq<char>, c: int) -> Option<int>
    decreases s.len() - c,
{
    if c < 0 || c >= s.len() {
        None
    } else if city_comma(s, c) {
        Some(c)
    } else {
        first_city_comma(s, c + 1)
    }
}

/// The last comma in `lo..=c` that something can follow.
pub open spec fn last_city_comma(s: Seq<char>, lo: int, c: int) -> Option<int>
    decreases c - lo + 1,
{
    if c < lo {
        None
    } else if after_comma(s, c) is Some {
        Some(c)
    } else {
        last_city_comma(s, lo, c - 1)
    }
}

/// The pieces of an address line, as the pattern
/// `(city: .+),\s+(street: .+) д\.(building: \S+), кв\.(\{'uk': '(\S+)'|\S+)`
/// finds them, the leftmost match first and each part as long as the rest
/// allows: the match starts at the line of the first comma that can end a
/// city; the city runs to the last such comma of that line; then come the
/// most spaces, and the longest street, that leave a building and an
/// apartment after them. `.` does not cross a line break.
pub open spec fn address_line(s: Seq<char>) -> Option<AddressLine> {
    match first_city_comma(s, 0) {
        None => None,
        Some(c0) => {
            let st = line_start(s, c0);
            match last_city_comma(s, c0, line_end(s, st) - 1) {
                None => None,
                Some(c) => {
                    let w = (after_comma(s, c)->0).0;
                    let d = (after_comma(s, c)->0).1;
                    let b = (tail_at(s, d)->0).0;
                    let parts = (tail_at(s, d)->0).1;
                    Some(
                        AddressLine {
                            lead: s.subrange(0, st),
                            city: s.subrange(st, c),
                            spaces: s.subrange(c + 1, c + 1 + w),
                            street: s.subrange(c + 1 + w, d),
                            building: s.subrange(d + 3, b),
                            wrapper: parts.0,
                            apartment: parts.1,
                            rest: parts.2,
                        },
                    )
                },
            }
        },
    }
}

/// The address that an address line gives: the street corrected and the
/// apartment cleaned of serialisation artifacts.
pub open spec fn address_of_line(l: AddressLine) -> AddressView {
    AddressView {
        city: l.city,
        street: transform_street(l.street),
        building: l.building,
        apartment: remove_chars(l.apartment, apartment_artifacts()),
    }
}

proof fn lemma_last_quote(t: Seq<char>, from: int, i: int)
    ensures
        last_quote_from(t, from, i) matches Some(q) ==> from <= q <= i && t[q] == '\'',
    decreases i + 1 - from,
{
    if i >= from && t[i] != '\'' {
        lemma_last_quote(t, from, i - 1);
    }
}


proof fn lemma_first_city_comma(s: Seq<char>, c: int)
    requires
        0 <= c,
    ensures
        first_city_comma(s, c) matches Some(k) ==> c <= k < s.len() && city_comma(s, k),
    decreases s.len() - c,
{
    if c < s.len() && !city_comma(s, c) {
        lemma_first_city_comma(s, c + 1);
    }
}

proof fn lemma_last_city_comma(s: Seq<char>, lo: int, c: int)
    ensures
        last_city_comma(s, lo, c) matches Some(k) ==> lo <= k <= c && after_comma(s, k) is Some,
    decreases c - lo + 1,
{
    if c >= lo && after_comma(s, c) is None {
        lemma_last_city_comma(s, lo, c - 1);
    }
}

proof fn lemma_spaces_from(s: Seq<char>, c: int, w: int)
    ensures
        spaces_from(s, c, w) matches Some((v, d)) ==> 1 <= v <= w && street_end(s, c + 1 + v) == Some(d),
    decreases w,
{
    if w >= 1 && street_end(s, c + 1 + w) is None {
        lemma_spaces_from(s, c, w - 1);
    }
}

proof fn lemma_street_end_from(s: Seq<char>, p: int, d: int)
    ensures
        street_end_from(s, p, d) matches Some(k) ==> p < k <= d && tail_at(s, k) is Some,
    decreases d - p,
{
    if d > p && tail_at(s, d) is None {
        lemma_street_end_from(s, p, d - 1);
    }
}

proof fn lemma_apartment_split(t: Seq<char>)
    requires
        apartment_split(t) is Some,
    ensures
        ({
            let (w, a, r) = apartment_split(t)->0;
            &&& t == w + a + r
            &&& w == Seq::<char>::empty() || w == wrapper_prefix()
            &&& a.len() > 0
            &&& forall|k: int| 0 <= k < a.len() ==> !is_whitespace(#[trigger] a[k])
        }),
{
    reveal_strlit("{'uk': '");
    let wp = wrapper_prefix();
    let quote = if occurs_at(t, wp, 0) {
        last_quote_from(t, wp.len() + 1int, wp.len() + nonspace_run(t, wp.len() as int) - 1int)
    } else {
        None
    };
    if occurs_at(t, wp, 0) {
        lemma_last_quote(t, wp.len() + 1int, wp.len() + nonspace_run(t, wp.len() as int) - 1int);
        crate::text::lemma_nonspace_run(t, 8, 8);
    }
    crate::text::lemma_nonspace_run(t, 0, 0);
    let (w, a, r) = apartment_split(t)->0;
    match quote {
        Some(qq) => {
            assert(t.subrange(0, 8) =~= wp);
            assert(t =~= wp + t.subrange(8, qq) + t.subrange(qq, t.len() as int));
            assert forall|k: int| 0 <= k < a.len() implies !is_whitespace(#[trigger] a[k]) by {
                assert(a[k] == t[8 + k]);
            }
        },
        None => {
            let n = nonspace_run(t, 0) as int;
            assert(t =~= Seq::<char>::empty() + t.subrange(0, n) + t.subrange(n, t.len() as int));
            assert forall|k: int| 0 <= k < a.len() implies !is_whitespace(#[trigger] a[k]) by {
                assert(a[k] == t[k]);
            }
        },
    }
}

proof fn lemma_remove_chars(s: Seq<char>, drop: Seq<char>)
    ensures
        forall|k: int| 0 <= k < remove_chars(s, drop).len() ==> !drop.contains(#[trigger] remove_chars(s, drop)[k]),
    decreases s.len(),
{
    if s.len() > 0 {
        lemma_remove_chars(s.drop_last(), drop);
        let r = remove_chars(s.drop_last(), drop);
        if !drop.contains(s.last()) {
            assert(remove_chars(s, drop) == r.push(s.last()));
            assert forall|k: int| 0 <= k < r.push(s.last()).len() implies !drop.contains(
                #[trigger] r.push(s.last())[k],
            ) by {
                if k < r.len() {
                    assert(r.push(s.last())[k] == r[k]);
                }
            }
        } else {
            assert(remove_chars(s, drop) == r);
        }
    }
}

proof fn lemma_concat_pieces(s: Seq<char>, st: int, c: int, p: int, d: int, b: int)
    requires
        0 <= st <= c,
        c + 1 <= p <= d,
        d + 3 <= b,
        b + 5 <= s.len(),
    ensures
        s == s.subrange(0, st) + s.subrange(st, c) + s.subrange(c, c + 1) + s.subrange(c + 1, p)
            + s.subrange(p, d) + s.subrange(d, d + 3) + s.subrange(d + 3, b) + s.subrange(b, b + 5)
            + s.subrange(b + 5, s.len() as int),
{
    assert(s =~= s.subrange(0, st) + s.subrange(st, c) + s.subrange(c, c + 1) + s.subrange(c + 1, p)
        + s.subrange(p, d) + s.subrange(d, d + 3) + s.subrange(d + 3, b) + s.subrange(b, b + 5)
        + s.subrange(b + 5, s.len() as int));
}

/// An address line falls apart into its pieces exactly: put back together
/// with the separators they were found at, the pieces give the line. City,
/// spaces, street, building and apartment are not empty; building and
/// apartment are one word each; the apartment is taken without the wrapper
/// that a serialised apartment carries, and the address keeps none of the
/// serialisation artifacts in it; the street is the corrected street of the
/// line.
#[verifier::rlimit(50)]
pub proof fn lemma_address_line_exact(s: Seq<char>)
    requires
        address_line(s) is Some,
    ensures
        ({
            let l = address_line(s)->0;
            &&& s == l.lead + l.city + ","@ + l.spaces + l.street + building_marker() + l.building
                + apartment_marker() + l.wrapper + l.apartment + l.rest
            &&& l.city.len() > 0 && l.street.len() > 0 && l.building.len() > 0
            &&& l.spaces.len() > 0
            &&& forall|k: int| 0 <= k < l.spaces.len() ==> is_whitespace(#[trigger] l.spaces[k])
            &&& forall|k: int| 0 <= k < l.building.len() ==> !is_whitespace(#[trigger] l.building[k])
            &&& l.wrapper == Seq::<char>::empty() || l.wrapper == wrapper_prefix()
            &&& l.apartment.len() > 0
            &&& forall|k: int| 0 <= k < l.apartment.len() ==> !is_whitespace(#[trigger] l.apartment[k])
            &&& forall|k: int|
                0 <= k < address_of_line(l).apartment.len() ==> !apartment_artifacts().contains(
                    #[trigger] address_of_line(l).apartment[k],
                )
            &&& address_of_line(l).street == transform_street(l.street)
        }),
{
    reveal_strlit(", кв.");
    reveal_strlit(" д.");
    reveal_strlit(",");
    let l = address_line(s)->0;
    let c0 = first_city_comma(s, 0)->0;
    lemma_first_city_comma(s, 0);
    let st = line_start(s, c0);
    lemma_line_start(s, c0);
    let e = line_end(s, st);
    lemma_line_end(s, st);
    let c = last_city_comma(s, c0, e - 1)->0;
    lemma_last_city_comma(s, c0, e - 1);
    let big = space_run(s, c + 1) as int;
    lemma_space_run(s, c + 1);
    let w = (after_comma(s, c)->0).0;
    let d = (after_comma(s, c)->0).1;
    lemma_spaces_from(s, c, big);
    let p = c + 1 + w;
    lemma_line_end(s, p);
    lemma_street_end_from(s, p, line_end(s, p));
    let b = (tail_at(s, d)->0).0;
    let run = nonspace_run(s, d + 3);
    crate::text::lemma_nonspace_run(s, d + 3, d + 3);
    let t = s.subrange(b + 5, s.len() as int);
    lemma_apartment_split(t);
    lemma_remove_chars(l.apartment, apartment_artifacts());
    assert forall|k: int| 0 <= k < l.spaces.len() implies is_whitespace(#[trigger] l.spaces[k]) by {
        assert(l.spaces[k] == s[c + 1 + k]);
    }
    assert forall|k: int| 0 <= k < l.building.len() implies !is_whitespace(#[trigger] l.building[k]) by {
        assert(l.building[k] == s[d + 3 + k]);
    }
    assert(s.subrange(c, c + 1) =~= ","@);
    assert(s.subrange(d, d + 3) =~= building_marker());
    assert(s.subrange(b, b + 5) =~= apartment_marker());
    lemma_concat_pieces(s, st, c, p, d, b);
    assert(t == l.wrapper + l.apartment + l.rest);
    assert(s =~= l.lead + l.city + ","@ + l.spaces + l.street + building_marker() + l.building
        + apartment_marker() + l.wrapper + l.apartment + l.rest);
}

proof fn lemma_no_break_line(s: Seq<char>, k: int)
    requires
        0 <= k <= s.len(),
        forall|j: int| 0 <= j < s.len() ==> s[j] != '\n',
    ensures
        line_start(s, k) == 0,
        line_end(s, k) == s.len(),
    decreases k,
{
    if k > 0 {
        lemma_no_break_line(s, k - 1);
    }
    lemma_line_end_len(s, k);
}

proof fn lemma_line_end_len(s: Seq<char>, k: int)
    requires
        0 <= k <= s.len(),
        forall|j: int| 0 <= j < s.len() ==> s[j] != '\n',
    ensures
        line_end(s, k) == s.len(),
    decreases s.len() - k,
{
    if k < s.len() {
        lemma_line_end_len(s, k + 1);
    }
}

proof fn lemma_no_street(s: Seq<char>, p: int, d: int)
    requires
        forall|j: int| p < j <= d ==> tail_at(s, j) is None,
    ensures
        street_end_from(s, p, d) is None,
    decreases d - p,
{
    if d > p {
        lemma_no_street(s, p, d - 1);
    }
}

proof fn lemma_last_city_comma_at(s: Seq<char>, lo: int, k: int, hi: int)
    requires
        lo <= k <= hi,
        after_comma(s, k) is Some,
        forall|j: int| k < j <= hi ==> after_comma(s, j) is None,
    ensures
        last_city_comma(s, lo, hi) == Some(k),
    decreases hi - k,
{
    if hi > k {
        lemma_last_city_comma_at(s, lo, k, hi - 1);
    }
}

proof fn lemma_first_city_comma_before(s: Seq<char>, j: int, k: int)
    requires
        0 <= j <= k < s.len(),
        city_comma(s, k),
    ensures
        first_city_comma(s, j) matches Some(c0) && c0 <= k,
    decreases k - j,
{
    if !city_comma(s, j) {
        lemma_first_city_comma_before(s, j + 1, k);
    }
}

proof fn lemma_remove_nothing(s: Seq<char>, drop: Seq<char>)
    requires
        forall|k: int| 0 <= k < s.len() ==> !drop.contains(#[trigger] s[k]),
    ensures
        remove_chars(s, drop) == s,
    decreases s.len(),
{
    if s.len() > 0 {
        lemma_remove_nothing(s.drop_last(), drop);
        assert(s.drop_last().push(s.last()) =~= s);
    }
}

/// The conditions on the parts of a plain address line.
pub open spec fn plain_parts(c: Seq<char>, st: Seq<char>, b: Seq<char>, a: Seq<char>) -> bool {
    &&& c.len() > 0 && st.len() > 0 && b.len() > 0 && a.len() > 0
    &&& forall|k: int| 0 <= k < c.len() ==> #[trigger] c[k] != '\n'
    &&& forall|k: int| 0 <= k < st.len() ==> #[trigger] st[k] != '\n' && st[k] != ','
    &&& !is_whitespace(st[0])
    &&& forall|k: int| 0 <= k < b.len() ==> !is_whitespace(#[trigger] b[k])
    &&& forall|k: int| 0 <= k < a.len() ==> !is_whitespace(#[trigger] a[k])
    &&& a[0] != '{'
    &&& forall|k: int| 0 <= k < a.len() ==> !apartment_artifacts().contains(#[trigger] a[k])
}

pub open spec fn plain_line(c: Seq<char>, st: Seq<char>, b: Seq<char>, a: Seq<char>) -> Seq<char> {
    c + ", "@ + st + building_marker() + b + apartment_marker() + a
}

proof fn lemma_plain_chars(c: Seq<char>, st: Seq<char>, b: Seq<char>, a: Seq<char>)
    requires
        plain_parts(c, st, b, a),
    ensures
        ({
            let s = plain_line(c, st, b, a);
            let k1 = c.len() as int;
            let p = k1 + 2;
            let d0 = p + st.len();
            let kb = d0 + 3 + b.len();
            &&& s.len() == kb + 5 + a.len()
            &&& forall|j: int| 0 <= j < k1 ==> s[j] == c[j]
            &&& s[k1] == ',' && s[k1 + 1] == ' '
            &&& forall|j: int| p <= j < d0 ==> s[j] == st[j - p]
            &&& s[d0] == ' ' && s[d0 + 1] == 'д' && s[d0 + 2] == '.'
            &&& forall|j: int| d0 + 3 <= j < kb ==> s[j] == b[j - d0 - 3]
            &&& s[kb] == ',' && s[kb + 1] == ' ' && s[kb + 2] == 'к' && s[kb + 3] == 'в' && s[kb + 4] == '.'
            &&& forall|j: int| kb + 5 <= j < s.len() ==> s[j] == a[j - kb - 5]
            &&& forall|j: int| 0 <= j < s.len() ==> s[j] != '\n'
            &&& s.subrange(d0, d0 + 3) == building_marker()
            &&& s.subrange(kb, kb + 5) == apartment_marker()
            &&& s.subrange(0, k1) == c && s.subrange(p, d0) == st && s.subrange(d0 + 3, kb) == b
            &&& s.subrange(kb + 5, s.len() as int) == a
        }),
{
    reveal_strlit(", ");
    reveal_strlit(" д.");
    reveal_strlit(", кв.");
    let s = plain_line(c, st, b, a);
    let k1 = c.len() as int;
    let p = k1 + 2;
    let d0 = p + st.len();
    let kb = d0 + 3 + b.len();
    assert forall|j: int| 0 <= j < s.len() implies s[j] != '\n' by {
        if j < k1 {
            assert(s[j] == c[j]);
        } else if p <= j < d0 {
            assert(s[j] == st[j - p]);
        } else if d0 + 3 <= j < kb {
            assert(s[j] == b[j - d0 - 3]);
        } else if kb + 5 <= j {
            assert(s[j] == a[j - kb - 5]);
        }
    }
    assert(s.subrange(d0, d0 + 3) =~= building_marker());
    assert(s.subrange(kb, kb + 5) =~= apartment_marker());
    assert(s.subrange(0, k1) =~= c);
    assert(s.subrange(p, d0) =~= st);
    assert(s.subrange(d0 + 3, kb) =~= b);
    assert(s.subrange(kb + 5, s.len() as int) =~= a);
}

#[verifier::rlimit(100)]
proof fn lemma_plain_tail(c: Seq<char>, st: Seq<char>, b: Seq<char>, a: Seq<char>)
    requires
        plain_parts(c, st, b, a),
    ensures
        ({
            let s = plain_line(c, st, b, a);
            let d0 = c.len() as int + 2 + st.len();
            let kb = d0 + 3 + b.len();
            &&& tail_at(s, d0) == Some((kb, (Seq::<char>::empty(), a, Seq::<char>::empty())))
            &&& forall|j: int| d0 < j <= s.len() ==> tail_at(s, j) is None
        }),
{
    reveal_strlit(" д.");
    reveal_strlit("{'uk': '");
    lemma_plain_chars(c, st, b, a);
    let s = plain_line(c, st, b, a);
    let d0 = c.len() as int + 2 + st.len();
    let kb = d0 + 3 + b.len();
    let n = s.len() as int;
    assert(occurs_at(s, building_marker(), d0));
    assert(nonspace_run(s, kb + 1) == 0);
    lemma_run_down(s, d0 + 3, kb, d0 + 3);
    let t = s.subrange(kb + 5, n);
    assert(t == a);
    assert(!occurs_at(t, wrapper_prefix(), 0)) by {
        assert(wrapper_prefix()[0] == '{');
        if occurs_at(t, wrapper_prefix(), 0) {
            assert(t.subrange(0, 8)[0] == t[0]);
        }
    }
    lemma_word_run(a);
    assert(t.subrange(0, a.len() as int) =~= a);
    assert(t.subrange(a.len() as int, a.len() as int) =~= Seq::<char>::empty());
    lemma_plain_no_tail(c, st, b, a);
}

#[verifier::rlimit(100)]
proof fn lemma_plain_no_tail(c: Seq<char>, st: Seq<char>, b: Seq<char>, a: Seq<char>)
    requires
        plain_parts(c, st, b, a),
    ensures
        ({
            let s = plain_line(c, st, b, a);
            let d0 = c.len() as int + 2 + st.len();
            forall|j: int| d0 < j <= s.len() ==> tail_at(s, j) is None
        }),
{
    reveal_strlit(" д.");
    lemma_plain_chars(c, st, b, a);
    let s = plain_line(c, st, b, a);
    let d0 = c.len() as int + 2 + st.len();
    let kb = d0 + 3 + b.len();
    let n = s.len() as int;
    assert forall|j: int| d0 < j <= n implies tail_at(s, j) is None by {
        if j + 3 <= n && occurs_at(s, building_marker(), j) {
            assert(s.subrange(j, j + 3)[0] == s[j]);
            assert(s.subrange(j, j + 3)[1] == s[j + 1]);
            if d0 + 3 <= j < kb {
                assert(s[j] == b[j - d0 - 3]);
            } else if j >= kb + 5 && j < n {
                assert(s[j] == a[j - kb - 5]);
            }
        }
    }
}

#[verifier::rlimit(100)]
proof fn lemma_plain_commas(c: Seq<char>, st: Seq<char>, b: Seq<char>, a: Seq<char>)
    requires
        plain_parts(c, st, b, a),
    ensures
        ({
            let s = plain_line(c, st, b, a);
            let k1 = c.len() as int;
            &&& after_comma(s, k1) == Some((1int, k1 + 2 + st.len() as int))
            &&& forall|j: int| k1 < j < s.len() ==> after_comma(s, j) is None
        }),
{
    reveal_strlit(" д.");
    lemma_plain_chars(c, st, b, a);
    lemma_plain_tail(c, st, b, a);
    let s = plain_line(c, st, b, a);
    let k1 = c.len() as int;
    let p = k1 + 2;
    let d0 = p + st.len();
    let kb = d0 + 3 + b.len();
    let n = s.len() as int;
    lemma_no_break_line(s, p);
    lemma_no_street(s, d0, n);
    lemma_street_end_down(s, p, d0, n);
    assert(space_run(s, k1 + 2) == 0) by {
        assert(s[p] == st[0]);
    }
    assert(space_run(s, k1 + 1) == 1);
    assert forall|j: int| k1 < j < n implies after_comma(s, j) is None by {
        if s[j] == ',' {
            if p <= j < d0 {
                assert(s[j] == st[j - p]);
            } else if j == kb {
                lemma_no_break_line(s, kb + 2);
                assert forall|q: int| kb + 2 < q <= n implies tail_at(s, q) is None by {
                    assert(q > d0);
                }
                lemma_no_street(s, kb + 2, n);
                assert(space_run(s, kb + 2) == 0);
                assert(space_run(s, kb + 1) == 1);
                assert(spaces_from(s, kb, 0) is None);
            } else {
                assert(j + 1 >= n || !is_whitespace(s[j + 1])) by {
                    if d0 + 3 <= j < kb - 1 {
                        assert(s[j + 1] == b[j + 1 - d0 - 3]);
                    } else if kb + 5 <= j < n - 1 {
                        assert(s[j + 1] == a[j + 1 - kb - 5]);
                    }
                }
                assert(space_run(s, j + 1) == 0);
            }
        }
    }
}

/// A plain address line `city, street д.building, кв.apartment` reads as its
/// parts exactly: a city without line breaks, a street without commas or
/// line breaks that does not start with whitespace, a building and an
/// apartment that are words, the apartment without the wrapper's opening
/// brace or any serialisation artifact.
pub proof fn lemma_address_plain_line(c: Seq<char>, st: Seq<char>, b: Seq<char>, a: Seq<char>)
    requires
        plain_parts(c, st, b, a),
    ensures
        address_line(plain_line(c, st, b, a)) matches Some(l) && address_of_line(l) == (AddressView {
            city: c,
            street: transform_street(st),
            building: b,
            apartment: a,
        }),
{
    lemma_plain_chars(c, st, b, a);
    lemma_plain_tail(c, st, b, a);
    lemma_plain_commas(c, st, b, a);
    let s = plain_line(c, st, b, a);
    let k1 = c.len() as int;
    let n = s.len() as int;
    lemma_no_break_line(s, k1);
    assert(city_comma(s, k1));
    lemma_first_city_comma_before(s, 0, k1);
    let c0 = first_city_comma(s, 0)->0;
    lemma_first_city_comma(s, 0);
    lemma_no_break_line(s, c0);
    lemma_no_break_line(s, 0);
    lemma_last_city_comma_at(s, c0, k1, n - 1);
    lemma_remove_nothing(a, apartment_artifacts());
}

proof fn lemma_run_down(s: Seq<char>, lo: int, kb: int, j: int)
    requires
        0 <= lo <= j <= kb,
        kb + 1 < s.len(),
        is_whitespace(s[kb + 1]),
        forall|q: int| lo <= q <= kb ==> !is_whitespace(#[trigger] s[q]),
    ensures
        nonspace_run(s, j) == kb + 1 - j,
    decreases kb - j,
{
    assert(!is_whitespace(s[j]));
    if j < kb {
        lemma_run_down(s, lo, kb, j + 1);
    } else {
        assert(nonspace_run(s, kb + 1) == 0);
    }
}

proof fn lemma_word_run(a: Seq<char>)
    requires
        forall|k: int| 0 <= k < a.len() ==> !is_whitespace(#[trigger] a[k]),
    ensures
        nonspace_run(a, 0) == a.len(),
{
    assert forall|j: int| 0 <= j <= a.len() implies nonspace_run(a, j) == a.len() - j by {
        lemma_word_run_from(a, j);
    }
}

proof fn lemma_word_run_from(a: Seq<char>, j: int)
    requires
        0 <= j <= a.len(),
        forall|k: int| 0 <= k < a.len() ==> !is_whitespace(#[trigger] a[k]),
    ensures
        nonspace_run(a, j) == a.len() - j,
    decreases a.len() - j,
{
    if j < a.len() {
        lemma_word_run_from(a, j + 1);
    }
}

proof fn lemma_street_end_down(s: Seq<char>, p: int, d0: int, d: int)
    requires
        p < d0 <= d,
        tail_at(s, d0) is Some,
        street_end_from(s, d0, d) is None,
    ensures
        street_end_from(s, p, d) == Some(d0),
    decreases d - d0,
{
    if d > d0 {
        lemma_street_end_down(s, p, d0, d - 1);
    }
}

proof fn lemma_space_run(s: Seq<char>, i: int)
    requires
        0 <= i <= s.len(),
    ensures
        i + space_run(s, i) <= s.len(),
        forall|k: int| i <= k < i + space_run(s, i) ==> is_whitespace(#[trigger] s[k]),
    decreases s.len() - i,
{
    if i < s.len() && is_whitespace(s[i]) {
        lemma_space_run(s, i + 1);
    }
}

/// The street with its corrections.
pub fn transform_street_exec(street: &[char]) -> (r: Vec<char>)
    ensures
        r@ == transform_street(street@),
{
    let double = chars_of("  ");
    let word = chars_of("вулиця ");
    let long = chars_of("Зернова (Ленінський)");
    let short = chars_of("Зернова");
    let none: Vec<char> = Vec::new();
    assert(none@ =~= Seq::<char>::empty());
    let a = replace_all_exec(street, double.as_slice(), none.as_slice());
    let b = replace_all_exec(a.as_slice(), word.as_slice(), none.as_slice());
    replace_all_exec(b.as_slice(), long.as_slice(), short.as_slice())
}

fn last_quote(t: &[char], from: usize, start: usize) -> (r: Option<usize>)
    requires
        start < t.len(),
    ensures
        r matches Some(q) ==> last_quote_from(t@, from as int, start as int) == Some(q as int)
            && from <= q <= start,
        r is None ==> last_quote_from(t@, from as int, start as int) is None,
{
    let mut i = start;
    loop
        invariant
            i <= start < t.len(),
            last_quote_from(t@, from as int, start as int) == last_quote_from(t@, from as int, i as int),
        decreases i,
    {
        if i < from {
            return None;
        }
        if t[i] == '\'' {
            return Some(i);
        }
        if i == 0 {
            assert(last_quote_from(t@, from as int, -1) is None);
            return None;
        }
        i -= 1;
    }
}

fn apartment_split_exec(t: &[char]) -> (r: Option<(usize, usize, usize)>)
    ensures
        match r {
            Some((a, b, c)) => a <= b <= c <= t.len() && apartment_split(t@) == Some((
                t@.subrange(0, a as int),
                t@.subrange(a as int, b as int),
                t@.subrange(c as int, t@.len() as int),
            )) && b == c,
            None => apartment_split(t@) is None,
        },
{
    let w = chars_of("{'uk': '");
    proof {
        reveal_strlit("{'uk': '");
    }
    let mut quote: Option<usize> = None;
    if occurs_at_exec(t, w.as_slice(), 0) {
        let n = nonspace_run_exec(t, 8);
        if n >= 1 {
            quote = last_quote(t, 9, 8 + n - 1);
        } else {
            assert(last_quote_from(t@, 9, 7) is None);
        }
    }
    match quote {
        Some(q) => {
            assert(t@.subrange(0, 8) =~= wrapper_prefix());
            Some((8, q, q))
        },
        None => {
            let n = nonspace_run_exec(t, 0);
            if n >= 1 {
                assert(t@.subrange(0, 0) =~= Seq::<char>::empty());
                Some((0, n, n))
            } else {
                None
            }
        },
    }
}

fn line_start_exec(s: &[char], p: usize) -> (r: usize)
    requires
        p <= s.len(),
    ensures
        r as int == line_start(s@, p as int),
        r <= p,
{
    let mut a = p;
    while a > 0 && s[a - 1] != '\n'
        invariant
            a <= p <= s.len(),
            line_start(s@, p as int) == line_start(s@, a as int),
        decreases a,
    {
        a -= 1;
    }
    a
}

fn line_end_exec(s: &[char], p: usize) -> (r: usize)
    requires
        p <= s.len(),
    ensures
        r as int == line_end(s@, p as int),
        p <= r <= s.len(),
{
    let mut b = p;
    while b < s.len() && s[b] != '\n'
        invariant
            p <= b <= s.len(),
            line_end(s@, p as int) == line_end(s@, b as int),
        decreases s.len() - b,
    {
        b += 1;
    }
    b
}

/// The building's end and the apartment's bounds within the text after
/// `кв.`, where [`tail_at`] finds them.
fn tail_at_exec(s: &[char], d: usize) -> (r: Option<(usize, usize, usize)>)
    ensures
        match r {
            Some((b, x, y)) => {
                &&& tail_at(s@, d as int) is Some
                &&& (tail_at(s@, d as int)->0).0 == b as int
                &&& d + 3 < b && b + 5 + y <= s@.len() && x <= y
                &&& (tail_at(s@, d as int)->0).1 == (
                    s@.subrange(b + 5, b + 5 + x),
                    s@.subrange(b + 5 + x, b + 5 + y),
                    s@.subrange(b + 5 + y, s@.len() as int),
                )
            },
            None => tail_at(s@, d as int) is None,
        },
{
    let n = s.len();
    let bm = chars_of(" д.");
    let am = chars_of(", кв.");
    proof {
        reveal_strlit(" д.");
        reveal_strlit(", кв.");
    }
    assert(bm@.len() == 3 && am@.len() == 5);
    if !occurs_at_exec(s, bm.as_slice(), d) {
        return None;
    }
    let run = nonspace_run_exec(s, d + 3);
    if run < 2 {
        return None;
    }
    let b = d + 3 + run - 1;
    if !occurs_at_exec(s, am.as_slice(), b) {
        return None;
    }
    let t = slice_chars(s, b + 5, n);
    match apartment_split_exec(t.as_slice()) {
        Some((x, y, _)) => {
            assert(t@.subrange(0, x as int) =~= s@.subrange(b + 5, b + 5 + x));
            assert(t@.subrange(x as int, y as int) =~= s@.subrange(b + 5 + x, b + 5 + y));
            assert(t@.subrange(y as int, t@.len() as int) =~= s@.subrange(b + 5 + y, s@.len() as int));
            Some((b, x, y))
        },
        None => None,
    }
}

fn street_end_exec(s: &[char], p: usize) -> (r: Option<usize>)
    requires
        p <= s.len(),
    ensures
        match r {
            Some(d) => street_end(s@, p as int) == Some(d as int) && p < d <= s@.len()
                && tail_at(s@, d as int) is Some,
            None => street_end(s@, p as int) is None,
        },
{
    let e = line_end_exec(s, p);
    let mut d = e;
    loop
        invariant
            p <= d <= e <= s.len(),
            street_end(s@, p as int) == street_end_from(s@, p as int, d as int),
        decreases d,
    {
        if d <= p {
            return None;
        }
        if tail_at_exec(s, d).is_some() {
            return Some(d);
        }
        d -= 1;
    }
}

fn after_comma_exec(s: &[char], c: usize) -> (r: Option<(usize, usize)>)
    ensures
        match r {
            Some((w, d)) => after_comma(s@, c as int) == Some((w as int, d as int)) && 1 <= w
                && c + 1 + w < d <= s@.len() && tail_at(s@, d as int) is Some,
            None => after_comma(s@, c as int) is None,
        },
{
    if c >= s.len() || s[c] != ',' {
        return None;
    }
    let big = space_run_exec(s, c + 1);
    let mut w = big;
    loop
        invariant
            c < s.len(),
            s@[c as int] == ',',
            w <= big,
            c + 1 + big <= s.len(),
            after_comma(s@, c as int) == spaces_from(s@, c as int, w as int),
        decreases w,
    {
        if w < 1 {
            return None;
        }
        match street_end_exec(s, c + 1 + w) {
            Some(d) => {
                return Some((w, d));
            },
            None => {},
        }
        w -= 1;
    }
}

fn first_city_comma_exec(s: &[char]) -> (r: Option<usize>)
    ensures
        match r {
            Some(c) => first_city_comma(s@, 0) == Some(c as int) && c < s@.len() && city_comma(s@, c as int),
            None => first_city_comma(s@, 0) is None,
        },
{
    let mut c: usize = 0;
    while c < s.len()
        invariant
            c <= s.len(),
            first_city_comma(s@, 0) == first_city_comma(s@, c as int),
        decreases s.len() - c,
    {
        if line_start_exec(s, c) < c && after_comma_exec(s, c).is_some() {
            return Some(c);
        }
        c += 1;
    }
    None
}

fn last_city_comma_exec(s: &[char], lo: usize, hi: usize) -> (r: Option<usize>)
    requires
        hi <= s.len(),
    ensures
        match r {
            Some(c) => last_city_comma(s@, lo as int, hi - 1) == Some(c as int) && lo <= c < hi
                && after_comma(s@, c as int) is Some,
            None => last_city_comma(s@, lo as int, hi - 1) is None,
        },
{
    let mut c = hi;
    loop
        invariant
            c <= hi <= s.len(),
            last_city_comma(s@, lo as int, hi - 1) == last_city_comma(s@, lo as int, c - 1),
        decreases c,
    {
        if c <= lo || c == 0 {
            return None;
        }
        if after_comma_exec(s, c - 1).is_some() {
            return Some(c - 1);
        }
        c -= 1;
    }
}

impl Address {
    /// An address from its four parts; the street is corrected and the
    /// apartment cleaned as [`address_from_parts`] says.
    pub fn from_parts(city: String, street: String, building: String, apartment: String) -> (r: Address)
        ensures
            r@ == address_from_parts(city@, street@, building@, apartment@),
    {
        let street = chars_of(street.as_str());
        let apartment = chars_of(apartment.as_str());
        let artifacts: Vec<char> = vec!['u', 'k', '{', ':', '\'', ' '];
        assert(artifacts@ =~= apartment_artifacts());
        let street = transform_street_exec(street.as_slice());
        let apartment = remove_chars_exec(apartment.as_slice(), artifacts.as_slice());
        Address {
            city,
            street: string_of(street.as_slice()),
            building,
            apartment: string_of(apartment.as_slice()),
        }
    }

    /// Reads an address line as [`address_line`] and [`address_of_line`]
    /// say: `city, street д.building, кв.apartment`, where the apartment may
    /// be wrapped as `{'uk': 'X'`.
    pub fn from_work_schedule(text: &str) -> (r: Result<Address, AddressError>)
        ensures
            match r {
                Ok(a) => address_line(text@) matches Some(l) && a@ == address_of_line(l),
                Err(_) => address_line(text@) is None,
            },
    {
        let s = chars_of(text);
        let n = s.len();
        let c0 = match first_city_comma_exec(s.as_slice()) {
            Some(c0) => c0,
            None => return Err(AddressError::NoMatch),
        };
        let st = line_start_exec(s.as_slice(), c0);
        let e = line_end_exec(s.as_slice(), st);
        let c = match last_city_comma_exec(s.as_slice(), c0, e) {
            Some(c) => c,
            None => return Err(AddressError::NoMatch),
        };
        let (w, d) = match after_comma_exec(s.as_slice(), c) {
            Some(v) => v,
            None => return Err(AddressError::NoMatch),
        };
        let (b, x, y) = match tail_at_exec(s.as_slice(), d) {
            Some(v) => v,
            None => return Err(AddressError::NoMatch),
        };
        proof {
            lemma_line_start(s@, c0 as int);
        }
        if st > c {
            return Err(AddressError::NoMatch);
        }
        let city = slice_chars(s.as_slice(), st, c);
        let street = slice_chars(s.as_slice(), c + 1 + w, d);
        let street = transform_street_exec(street.as_slice());
        let building = slice_chars(s.as_slice(), d + 3, b);
        let raw = slice_chars(s.as_slice(), b + 5 + x, b + 5 + y);
        let artifacts: Vec<char> = vec!['u', 'k', '{', ':', '\'', ' '];
        assert(artifacts@ =~= apartment_artifacts());
        let apartment = remove_chars_exec(raw.as_slice(), artifacts.as_slice());
        Ok(Address {
            city: string_of(city.as_slice()),
            street: string_of(street.as_slice()),
            building: string_of(building.as_slice()),
            apartment: string_of(apartment.as_slice()),
        })
    }
}

} // verus!
