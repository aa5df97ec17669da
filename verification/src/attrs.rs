//! Reading attributes out of the attribute text of a tag.
//!
//! The grammar is that of the case-insensitive patterns
//! `\bNAME\s*=\s*(?:"([^"]*)"|'([^']*)'|\{([^}]*)\})` (a value) and
//! `\bNAME\b` (a bare occurrence), with leftmost-first matching.

use vstd::prelude::*;
use crate::text::{
    at_word_boundary, ci_match_at, ci_matches_at, copy_range, index_of_char, lemma_next_index_of,
    next_index_of, skip_fwd, skip_ws_from, string_of, to_chars, word_boundary,
};

verus! {

/// `name` occurs at `i` as a whole word (`\bNAME\b`, case-insensitive).
pub open spec fn name_at(t: Seq<char>, i: int, name: Seq<char>) -> bool {
    word_boundary(t, i) && ci_match_at(t, i, name) && word_boundary(t, i + name.len())
}

/// The attribute `name` occurs anywhere in `t` as a whole word.
pub open spec fn has_attribute(t: Seq<char>, name: Seq<char>) -> bool {
    exists|i: int| 0 <= i <= t.len() && #[trigger] name_at(t, i, name)
}

/// The character that closes a value opened by `open`.
pub open spec fn closing_of(open: char) -> char {
    if open == '{' {
        '}'
    } else {
        open
    }
}

/// The value of `name="v"`, `name='v'` or `name={v}` (with white space allowed
/// around `=`) starting at index `i`, when that text starts there.
pub open spec fn attr_value_at(t: Seq<char>, i: int, name: Seq<char>) -> Option<Seq<char>> {
    if word_boundary(t, i) && ci_match_at(t, i, name) {
        let p1 = skip_fwd(t, i + name.len(), None);
        if 0 <= p1 < t.len() && t[p1] == '=' {
            let p2 = skip_fwd(t, p1 + 1, None);
            if 0 <= p2 < t.len() && (t[p2] == '"' || t[p2] == '\'' || t[p2] == '{') {
                match next_index_of(t, p2 + 1, closing_of(t[p2])) {
                    Some(q) => Some(t.subrange(p2 + 1, q)),
                    None => None,
                }
            } else {
                None
            }
        } else {
            None
        }
    } else {
        None
    }
}

/// The value at the leftmost index `>= i` where a value of `name` starts.
pub open spec fn first_attr_value(t: Seq<char>, name: Seq<char>, i: int) -> Option<Seq<char>>
    decreases t.len() + 1 - i,
{
    if i < 0 || i > t.len() {
        None
    } else {
        match attr_value_at(t, i, name) {
            Some(v) => Some(v),
            None => first_attr_value(t, name, i + 1),
        }
    }
}

/// The value of attribute `name` in the attribute text `t`.
pub open spec fn attr_value(t: Seq<char>, name: Seq<char>) -> Option<Seq<char>> {
    first_attr_value(t, name, 0)
}

/// The value of `name` starting at `i`, if any.
fn value_at(t: &Vec<char>, i: usize, name: &Vec<char>) -> (r: Option<Vec<char>>)
    requires
        i <= t@.len(),
    ensures
        r matches Some(v) ==> attr_value_at(t@, i as int, name@) == Some(v@),
        r is None ==> attr_value_at(t@, i as int, name@) is None,
{
    if !(ci_matches_at(t, i, name) && at_word_boundary(t, i)) {
        return None;
    }
    let tl = t.len();
    assert(i + name@.len() <= tl);
    let p1 = skip_ws_from(t, i + name.len());
    if !(p1 < t.len() && t[p1] == '=') {
        return None;
    }
    let p2 = skip_ws_from(t, p1 + 1);
    if !(p2 < t.len() && (t[p2] == '"' || t[p2] == '\'' || t[p2] == '{')) {
        return None;
    }
    let close = if t[p2] == '{' {
        '}'
    } else {
        t[p2]
    };
    proof {
        lemma_next_index_of(t@, p2 + 1, close);
    }
    match index_of_char(t, p2 + 1, close) {
        Some(q) => Some(copy_range(t, p2 + 1, q)),
        None => None,
    }
}

/// The value of the attribute `name` in the attribute text `attrs`
/// (leftmost occurrence), as characters.
pub fn attr_value_chars(attrs: &Vec<char>, name: &Vec<char>) -> (r: Option<Vec<char>>)
    ensures
        r matches Some(v) ==> attr_value(attrs@, name@) == Some(v@),
        r is None ==> attr_value(attrs@, name@) is None,
{
    let mut i: usize = 0;
    loop
        invariant
            i <= attrs@.len(),
            attr_value(attrs@, name@) == first_attr_value(attrs@, name@, i as int),
        decreases attrs@.len() - i,
    {
        match value_at(attrs, i, name) {
            Some(v) => {
                return Some(v);
            },
            None => {},
        }
        if i == attrs.len() {
            assert(first_attr_value(attrs@, name@, i + 1) is None);
            return None;
        }
        i = i + 1;
    }
}

/// The attribute `name` occurs in `attrs` as a whole word, as characters.
pub fn has_attr_chars(attrs: &Vec<char>, name: &Vec<char>) -> (b: bool)
    ensures
        b == has_attribute(attrs@, name@),
{
    let mut i: usize = 0;
    loop
        invariant
            i <= attrs@.len(),
            forall|j: int| 0 <= j < i ==> !#[trigger] name_at(attrs@, j, name@),
        decreases attrs@.len() - i,
    {
        if name.len() <= attrs.len() - i {
            if ci_matches_at(attrs, i, name) && at_word_boundary(attrs, i) && at_word_boundary(
                attrs,
                i + name.len(),
            ) {
                assert(name_at(attrs@, i as int, name@));
                return true;
            }
        } else {
            assert(!ci_match_at(attrs@, i as int, name@));
        }
        if i == attrs.len() {
            assert forall|j: int| 0 <= j <= attrs@.len() implies !#[trigger] name_at(
                attrs@,
                j,
                name@,
            ) by {
                if j == i as int {
                }
            }
            return false;
        }
        i = i + 1;
    }
}

/// The value of the attribute `name` in the attribute text `attrs`: the text
/// between the quotes (or braces) of the leftmost `name="…"`, `name='…'` or
/// `name={…}`, matched case-insensitively with `name` a whole word.
pub fn get_attr(attrs: &str, name: &str) -> (r: Option<String>)
    ensures
        r matches Some(v) ==> attr_value(attrs@, name@) == Some(v@),
        r is None ==> attr_value(attrs@, name@) is None,
{
    let t = to_chars(attrs);
    let n = to_chars(name);
    match attr_value_chars(&t, &n) {
        Some(v) => Some(string_of(&v)),
        None => None,
    }
}

/// The attribute `name` occurs in the attribute text `attrs` as a whole word,
/// case-insensitively (with or without a value).
pub fn has_attr(attrs: &str, name: &str) -> (b: bool)
    ensures
        b == has_attribute(attrs@, name@),
{
    let t = to_chars(attrs);
    let n = to_chars(name);
    has_attr_chars(&t, &n)
}

} // verus!
