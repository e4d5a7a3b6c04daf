//! What the client reads from the portal's pages: the session code of a
//! detailed order and whether a session is still alive.

use vstd::prelude::*;
use crate::text::{
    line_end, line_start, chars_of, contains_literal, contains_seq, find_from, first_occurrence_from, lemma_first_occurrence,
    remove_chars, remove_chars_exec, replace_all, replace_all_exec, slice_chars, string_of, trim,
    trim_exec,
};

verus! {

/// The session code that a page gives: the first line that mentions
/// `sessioncode:`, trimmed, without that word and without quotes and commas.
pub open spec fn session_code_of(page: Seq<char>) -> Option<Seq<char>> {
    match first_occurrence_from(page, "sessioncode:"@, 0) {
        Some(p) => {
            let line = page.subrange(line_start(page, p), line_end(page, p));
            Some(remove_chars(replace_all(trim(line), "sessioncode:"@, Seq::empty()), seq!['"', ',']))
        },
        None => None,
    }
}

/// The session code of a detailed order's page, as [`session_code_of`] says.
pub fn session_code(page: &str) -> (r: Option<String>)
    ensures
        match r {
            Some(c) => session_code_of(page@) == Some(c@),
            None => session_code_of(page@) is None,
        },
{
    let s = chars_of(page);
    let marker = chars_of("sessioncode:");
    let p = match find_from(s.as_slice(), marker.as_slice(), 0) {
        Some(p) => p,
        None => return None,
    };
    proof {
        lemma_first_occurrence(s@, marker@, 0);
    }
    let mut a = p;
    while a > 0 && s[a - 1] != '\n'
        invariant
            a <= p <= s.len(),
            line_start(s@, p as int) == line_start(s@, a as int),
        decreases a,
    {
        a -= 1;
    }
    let mut b = p;
    while b < s.len() && s[b] != '\n'
        invariant
            p <= b <= s.len(),
            line_end(s@, p as int) == line_end(s@, b as int),
        decreases s.len() - b,
    {
        b += 1;
    }
    let line = slice_chars(s.as_slice(), a, b);
    let trimmed = trim_exec(line.as_slice());
    let none: Vec<char> = Vec::new();
    assert(none@ =~= Seq::<char>::empty());
    let without = replace_all_exec(trimmed.as_slice(), marker.as_slice(), none.as_slice());
    let drop: Vec<char> = vec!['"', ','];
    assert(drop@ =~= seq!['"', ',']);
    let code = remove_chars_exec(without.as_slice(), drop.as_slice());
    Some(string_of(code.as_slice()))
}

/// Whether a page answered with a live session: it holds no login form.
pub open spec fn session_alive_in(page: Seq<char>) -> bool {
    !contains_seq(page, "logoform"@)
}

pub fn session_alive(page: &str) -> (r: bool)
    ensures
        r == session_alive_in(page@),
{
    let s = chars_of(page);
    !contains_literal(s.as_slice(), "logoform")
}

} // verus!
