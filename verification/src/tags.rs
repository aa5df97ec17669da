//! Locating `<img …>` tags and JSX `<Image` components in source text.
//!
//! An `<img>` tag follows the case-insensitive pattern
//! `<img\b((?:"[^"]*"|'[^']*'|<\?(?:php|=)[^?]*\?>|[^>"'])*)(?:\s*/?>|>)`
//! with leftmost-first matching: after `<img` the body runs over quoted
//! strings, PHP blocks (`<?php … ?>` / `<?= … ?>`) and any other character but
//! `>`, and the tag closes at the first `>` reached. When a route through a PHP
//! block cannot be closed (an unterminated quote after it), the block is read
//! again character by character, as a backtracking match does.

use vstd::prelude::*;
use crate::text::{
    at_word_boundary, ci_char, ci_char_eq, lemma_next_index_of, next_index_of, word_boundary,
};

verus! {

/// `o` read as an optional integer.
pub open spec fn opt_int(o: Option<usize>) -> Option<int> {
    match o {
        Some(x) => Some(x as int),
        None => None,
    }
}

// ─── Grammar ─────────────────────────────────────────────────────────────────

/// `<img` followed by a word boundary starts at index `s`.
pub open spec fn img_open_at(t: Seq<char>, s: int) -> bool {
    &&& 0 <= s
    &&& s + 3 < t.len()
    &&& t[s] == '<'
    &&& ci_char(t[s + 1], 'i')
    &&& ci_char(t[s + 2], 'm')
    &&& ci_char(t[s + 3], 'g')
    &&& word_boundary(t, s + 4)
}

/// The index just past a PHP block `<?php … ?>` or `<?= … ?>` starting at `p`
/// (the body runs to the first `?`, which must be followed by `>`).
pub open spec fn php_block_end(t: Seq<char>, p: int) -> Option<int> {
    if 0 <= p && p + 2 < t.len() && t[p] == '<' && t[p + 1] == '?' {
        let bs = if p + 4 < t.len() && ci_char(t[p + 2], 'p') && ci_char(t[p + 3], 'h') && ci_char(
            t[p + 4],
            'p',
        ) {
            p + 5
        } else if t[p + 2] == '=' {
            p + 3
        } else {
            -1
        };
        if bs < 0 {
            None
        } else {
            match next_index_of(t, bs, '?') {
                Some(j) => if j + 1 < t.len() && t[j + 1] == '>' {
                    Some(j + 2)
                } else {
                    None
                },
                None => None,
            }
        }
    } else {
        None
    }
}

pub proof fn lemma_php_block_end(t: Seq<char>, p: int)
    ensures
        php_block_end(t, p) matches Some(e) ==> p + 4 < e <= t.len(),
{
    if 0 <= p && p + 2 < t.len() {
        lemma_next_index_of(t, p + 5, '?');
        lemma_next_index_of(t, p + 3, '?');
    }
}

/// The index of the `>` that closes a tag body starting at `p`, if the body can
/// be closed.
pub open spec fn tag_close(t: Seq<char>, p: int) -> Option<int>
    decreases t.len() - p,
{
    if p < 0 || p >= t.len() {
        None
    } else if t[p] == '>' {
        Some(p)
    } else if t[p] == '"' || t[p] == '\'' {
        proof {
            lemma_next_index_of(t, p + 1, t[p]);
        }
        match next_index_of(t, p + 1, t[p]) {
            Some(q) => if p < q < t.len() {
                tag_close(t, q + 1)
            } else {
                None
            },
            None => None,
        }
    } else {
        proof {
            lemma_php_block_end(t, p);
        }
        match php_block_end(t, p) {
            Some(e) => if p < e <= t.len() {
                match tag_close(t, e) {
                    Some(r) => Some(r),
                    None => tag_close(t, p + 1),
                }
            } else {
                None
            },
            None => tag_close(t, p + 1),
        }
    }
}

pub proof fn lemma_tag_close(t: Seq<char>, p: int)
    ensures
        tag_close(t, p) matches Some(r) ==> 0 <= p <= r < t.len() && t[r] == '>',
    decreases t.len() - p,
{
    if 0 <= p < t.len() && t[p] != '>' {
        if t[p] == '"' || t[p] == '\'' {
            lemma_next_index_of(t, p + 1, t[p]);
            match next_index_of(t, p + 1, t[p]) {
                Some(q) => {
                    lemma_tag_close(t, q + 1);
                },
                None => {},
            }
        } else {
            lemma_php_block_end(t, p);
            match php_block_end(t, p) {
                Some(e) => {
                    lemma_tag_close(t, e);
                    lemma_tag_close(t, p + 1);
                },
                None => {
                    lemma_tag_close(t, p + 1);
                },
            }
        }
    }
}

/// The leftmost `<img …>` tag starting at an index `>= from`: its start and the
/// index of its closing `>`.
pub open spec fn next_img(t: Seq<char>, from: int) -> Option<(int, int)>
    decreases t.len() - from,
{
    if from < 0 || from >= t.len() {
        None
    } else if img_open_at(t, from) && tag_close(t, from + 4) is Some {
        Some((from, tag_close(t, from + 4)->0))
    } else {
        next_img(t, from + 1)
    }
}

pub proof fn lemma_next_img(t: Seq<char>, from: int)
    ensures
        next_img(t, from) matches Some((s, r)) ==> 0 <= from <= s && s + 4 <= r < t.len()
            && img_open_at(t, s) && tag_close(t, s + 4) == Some(r) && t[r] == '>',
    decreases t.len() - from,
{
    if 0 <= from < t.len() {
        lemma_tag_close(t, from + 4);
        if !(img_open_at(t, from) && tag_close(t, from + 4) is Some) {
            lemma_next_img(t, from + 1);
        }
    }
}

/// All `<img …>` tags at or after `from`, left to right without overlap, as
/// (start, index of the closing `>`).
pub open spec fn img_tags_from(t: Seq<char>, from: int) -> Seq<(int, int)>
    decreases t.len() - from,
{
    proof {
        lemma_next_img(t, from);
    }
    match next_img(t, from) {
        Some((s, r)) => if from <= s && s < r && r < t.len() {
            seq![(s, r)] + img_tags_from(t, r + 1)
        } else {
            seq![]
        },
        None => seq![],
    }
}

/// All `<img …>` tags of `t`.
pub open spec fn img_tags(t: Seq<char>) -> Seq<(int, int)> {
    img_tags_from(t, 0)
}

/// The number of `<img` openings (followed by a word boundary) at or after `i`.
pub open spec fn img_open_count_from(t: Seq<char>, i: int) -> nat
    decreases t.len() - i,
{
    if i < 0 || i >= t.len() {
        0
    } else {
        (if img_open_at(t, i) {
            1nat
        } else {
            0nat
        }) + img_open_count_from(t, i + 1)
    }
}

/// `<Image` followed by a word boundary starts at index `s` (case-insensitive).
pub open spec fn jsx_open_at(t: Seq<char>, s: int) -> bool {
    &&& 0 <= s
    &&& s + 5 < t.len()
    &&& t[s] == '<'
    &&& ci_char(t[s + 1], 'i')
    &&& ci_char(t[s + 2], 'm')
    &&& ci_char(t[s + 3], 'a')
    &&& ci_char(t[s + 4], 'g')
    &&& ci_char(t[s + 5], 'e')
    &&& word_boundary(t, s + 6)
}

/// The line contains a JSX `<Image` opening.
pub open spec fn has_jsx_image(line: Seq<char>) -> bool {
    exists|s: int| #[trigger] jsx_open_at(line, s)
}

// ─── Executable matching ─────────────────────────────────────────────────────

/// Executable `img_open_at`.
pub fn is_img_open(t: &Vec<char>, s: usize) -> (b: bool)
    ensures
        b == img_open_at(t@, s as int),
{
    let n = t.len();
    if s >= n || n - s < 5 {
        if s < n && n - s == 4 {
            return t[s] == '<' && ci_char_eq(t[s + 1], 'i') && ci_char_eq(t[s + 2], 'm')
                && ci_char_eq(t[s + 3], 'g') && at_word_boundary(t, s + 4);
        }
        return false;
    }
    t[s] == '<' && ci_char_eq(t[s + 1], 'i') && ci_char_eq(t[s + 2], 'm') && ci_char_eq(
        t[s + 3],
        'g',
    ) && at_word_boundary(t, s + 4)
}

/// Executable `jsx_open_at`.
pub fn is_jsx_open(t: &Vec<char>, s: usize) -> (b: bool)
    ensures
        b == jsx_open_at(t@, s as int),
{
    let n = t.len();
    if s >= n || n - s < 6 {
        return false;
    }
    t[s] == '<' && ci_char_eq(t[s + 1], 'i') && ci_char_eq(t[s + 2], 'm') && ci_char_eq(
        t[s + 3],
        'a',
    ) && ci_char_eq(t[s + 4], 'g') && ci_char_eq(t[s + 5], 'e') && at_word_boundary(t, s + 6)
}

/// The line contains a JSX `<Image` opening (the pattern `(?i)<Image\b`).
pub fn line_has_jsx_image(line: &Vec<char>) -> (b: bool)
    ensures
        b == has_jsx_image(line@),
{
    let mut s: usize = 0;
    while s < line.len()
        invariant
            s <= line@.len(),
            forall|j: int| 0 <= j < s ==> !#[trigger] jsx_open_at(line@, j),
        decreases line@.len() - s,
    {
        if is_jsx_open(line, s) {
            return true;
        }
        s = s + 1;
    }
    assert forall|j: int| !#[trigger] jsx_open_at(line@, j) by {
        if 0 <= j < s {
        }
    }
    false
}

/// The number of `<img` openings in `t` (what counting the matches of
/// `(?i)<img\b` gives).
pub fn count_img_opens(t: &Vec<char>) -> (n: usize)
    ensures
        n == img_open_count_from(t@, 0),
{
    let mut i: usize = t.len();
    let mut n: usize = 0;
    while i > 0
        invariant
            i <= t@.len(),
            n == img_open_count_from(t@, i as int),
            n <= t@.len() - i,
            t@.len() <= usize::MAX,
        decreases i,
    {
        i = i - 1;
        if is_img_open(t, i) {
            n = n + 1;
        }
    }
    n
}


// ─── Closing table ───────────────────────────────────────────────────────────

/// Reads entry `p` of a table indexed by text position (absent entries read as
/// `None`).
pub open spec fn table_at(c: Seq<Option<usize>>, p: int) -> Option<int> {
    if 0 <= p < c.len() {
        opt_int(c[p])
    } else {
        None
    }
}

/// `tab` holds `next_index_of(t, q, ch)` for every position `q` in `(lo, t.len())`.
pub open spec fn next_table_ok(t: Seq<char>, tab: Seq<Option<usize>>, ch: char, lo: int) -> bool {
    &&& tab.len() == t.len()
    &&& forall|q: int| lo < q < t.len() ==> #[trigger] table_at(tab, q) == next_index_of(t, q, ch)
}

fn read_table(tab: &Vec<Option<usize>>, p: usize) -> (r: Option<usize>)
    ensures
        opt_int(r) == table_at(tab@, p as int),
{
    if p < tab.len() {
        tab[p]
    } else {
        None
    }
}

/// Executable `php_block_end`, reading next `?` positions from `qm`.
fn php_end_with(t: &Vec<char>, p: usize, qm: &Vec<Option<usize>>) -> (r: Option<usize>)
    requires
        next_table_ok(t@, qm@, '?', p as int),
        p < t@.len(),
    ensures
        opt_int(r) == php_block_end(t@, p as int),
{
    let n = t.len();
    if !(n - p > 2 && t[p] == '<' && t[p + 1] == '?') {
        return None;
    }
    let bs: usize = if n - p > 4 && ci_char_eq(t[p + 2], 'p') && ci_char_eq(t[p + 3], 'h')
        && ci_char_eq(t[p + 4], 'p') {
        p + 5
    } else if t[p + 2] == '=' {
        p + 3
    } else {
        return None;
    };
    proof {
        lemma_next_index_of(t@, bs as int, '?');
    }
    let j = if bs < n {
        read_table(qm, bs)
    } else {
        None
    };
    assert(opt_int(j) == next_index_of(t@, bs as int, '?'));
    match j {
        Some(j) => {
            if j + 1 < n && t[j + 1] == '>' {
                Some(j + 2)
            } else {
                None
            }
        },
        None => None,
    }
}

fn none_table(n: usize) -> (v: Vec<Option<usize>>)
    ensures
        v@.len() == n,
        forall|q: int| 0 <= q < n ==> #[trigger] v@[q] is None,
{
    let mut v: Vec<Option<usize>> = Vec::new();
    let mut i: usize = 0;
    while i < n
        invariant
            i <= n,
            v@.len() == i,
            forall|q: int| 0 <= q < i ==> #[trigger] v@[q] is None,
        decreases n - i,
    {
        v.push(None);
        i = i + 1;
    }
    v
}

/// For every position `p` of `t`, where a tag body starting at `p` closes
/// (`tag_close(t, p)`).
pub fn close_table(t: &Vec<char>) -> (c: Vec<Option<usize>>)
    ensures
        c@.len() == t@.len(),
        forall|p: int| 0 <= p <= t@.len() ==> #[trigger] table_at(c@, p) == tag_close(t@, p),
{
    let n = t.len();
    let mut dq = none_table(n);
    let mut sq = none_table(n);
    let mut qm = none_table(n);
    let mut c = none_table(n);
    let mut p: usize = n;
    while p > 0
        invariant
            p <= n == t@.len(),
            c@.len() == n,
            next_table_ok(t@, dq@, '"', p - 1),
            next_table_ok(t@, sq@, '\'', p - 1),
            next_table_ok(t@, qm@, '?', p - 1),
            forall|q: int| p <= q <= n ==> #[trigger] table_at(c@, q) == tag_close(t@, q),
        decreases p,
    {
        p = p - 1;
        let ch = t[p];
        // next-occurrence tables at p
        let dq_next = read_table(&dq, p + 1);
        let sq_next = read_table(&sq, p + 1);
        let qm_next = read_table(&qm, p + 1);
        proof {
            if p + 1 == n {
                assert(next_index_of(t@, p + 1, '"') is None);
                assert(next_index_of(t@, p + 1, '\'') is None);
                assert(next_index_of(t@, p + 1, '?') is None);
            }
        }
        let v_dq = if ch == '"' {
            Some(p)
        } else {
            dq_next
        };
        let v_sq = if ch == '\'' {
            Some(p)
        } else {
            sq_next
        };
        let v_qm = if ch == '?' {
            Some(p)
        } else {
            qm_next
        };
        let ghost old_dq = dq@;
        let ghost old_sq = sq@;
        let ghost old_qm = qm@;
        dq.set(p, v_dq);
        sq.set(p, v_sq);
        qm.set(p, v_qm);
        assert(table_at(dq@, p as int) == next_index_of(t@, p as int, '"'));
        assert(table_at(sq@, p as int) == next_index_of(t@, p as int, '\''));
        assert(table_at(qm@, p as int) == next_index_of(t@, p as int, '?'));
        assert forall|q: int| p - 1 < q < n implies #[trigger] table_at(dq@, q) == next_index_of(
            t@,
            q,
            '"',
        ) by {
            if q != p as int {
                assert(table_at(old_dq, q) == next_index_of(t@, q, '"'));
            }
        }
        assert forall|q: int| p - 1 < q < n implies #[trigger] table_at(sq@, q) == next_index_of(
            t@,
            q,
            '\'',
        ) by {
            if q != p as int {
                assert(table_at(old_sq, q) == next_index_of(t@, q, '\''));
            }
        }
        assert forall|q: int| p - 1 < q < n implies #[trigger] table_at(qm@, q) == next_index_of(
            t@,
            q,
            '?',
        ) by {
            if q != p as int {
                assert(table_at(old_qm, q) == next_index_of(t@, q, '?'));
            }
        }
        // where a body starting at p closes
        let v: Option<usize> = if ch == '>' {
            Some(p)
        } else if ch == '"' || ch == '\'' {
            proof {
                lemma_next_index_of(t@, p + 1, ch);
            }
            let nq = if ch == '"' {
                dq_next
            } else {
                sq_next
            };
            match nq {
                Some(q) => read_table(&c, q + 1),
                None => None,
            }
        } else {
            proof {
                lemma_php_block_end(t@, p as int);
            }
            match php_end_with(t, p, &qm) {
                Some(e) => {
                    let r = read_table(&c, e);
                    if r.is_some() {
                        r
                    } else {
                        read_table(&c, p + 1)
                    }
                },
                None => read_table(&c, p + 1),
            }
        };
        assert(opt_int(v) == tag_close(t@, p as int));
        let ghost old_c = c@;
        c.set(p, v);
        assert forall|q: int| p <= q <= n implies #[trigger] table_at(c@, q) == tag_close(t@, q) by {
            if q != p as int {
                assert(table_at(old_c, q) == tag_close(t@, q));
            }
        }
    }
    c
}

/// Executable `next_img`, reading closing positions from `c`.
fn next_img_exec(t: &Vec<char>, c: &Vec<Option<usize>>, from: usize) -> (r: Option<(usize, usize)>)
    requires
        from <= t@.len(),
        c@.len() == t@.len(),
        forall|p: int| 0 <= p <= t@.len() ==> #[trigger] table_at(c@, p) == tag_close(t@, p),
    ensures
        r matches Some(f) ==> next_img(t@, from as int) == Some((f.0 as int, f.1 as int)),
        r is None ==> next_img(t@, from as int) is None,
{
    let n = t.len();
    let mut s = from;
    while s < n
        invariant
            from <= s <= n == t@.len(),
            c@.len() == n,
            forall|p: int| 0 <= p <= t@.len() ==> #[trigger] table_at(c@, p) == tag_close(t@, p),
            next_img(t@, from as int) == next_img(t@, s as int),
        decreases n - s,
    {
        if n - s >= 4 && is_img_open(t, s) {
            let r = read_table(c, s + 4);
            assert(table_at(c@, s + 4) == tag_close(t@, s + 4));
            if let Some(r) = r {
                return Some((s, r));
            }
        } else {
            assert(!img_open_at(t@, s as int));
        }
        s = s + 1;
    }
    None
}

/// The spans of all `<img …>` tags of `t` (start, index of the closing `>`),
/// left to right.
pub open spec fn spans_view(v: Seq<(usize, usize)>) -> Seq<(int, int)> {
    v.map_values(|x: (usize, usize)| (x.0 as int, x.1 as int))
}

/// Finds every `<img …>` tag of `t`, left to right without overlap, as the
/// regex `(?is)<img\b((?:"[^"]*"|'[^']*'|<\?(?:php|=)[^?]*\?>|[^>"'])*)(?:\s*/?>|>)`
/// finds them: each span is (start of `<img`, index of the closing `>`).
pub fn find_img_tags(t: &Vec<char>) -> (r: Vec<(usize, usize)>)
    ensures
        spans_view(r@) == img_tags(t@),
{
    let c = close_table(t);
    let n = t.len();
    let mut out: Vec<(usize, usize)> = Vec::new();
    let mut i: usize = 0;
    while i < n
        invariant
            i <= n == t@.len(),
            c@.len() == n,
            forall|p: int| 0 <= p <= t@.len() ==> #[trigger] table_at(c@, p) == tag_close(t@, p),
            spans_view(out@) + img_tags_from(t@, i as int) == img_tags(t@),
        decreases n - i,
    {
        let found = next_img_exec(t, &c, i);
        match found {
            Some((s0, r0)) => {
                proof {
                    lemma_next_img(t@, i as int);
                }
                let ghost before = spans_view(out@);
                out.push((s0, r0));
                assert(spans_view(out@) =~= before.push((s0 as int, r0 as int)));
                assert(img_tags_from(t@, i as int) =~= seq![(s0 as int, r0 as int)]
                    + img_tags_from(t@, r0 + 1));
                assert(spans_view(out@) + img_tags_from(t@, r0 + 1) =~= before + img_tags_from(
                    t@,
                    i as int,
                ));
                i = r0 + 1;
            },
            None => {
                assert(img_tags_from(t@, i as int) =~= Seq::<(int, int)>::empty());
                assert(spans_view(out@) + Seq::<(int, int)>::empty() =~= spans_view(out@));
                i = n;
            },
        }
    }
    assert(img_tags_from(t@, i as int) =~= Seq::<(int, int)>::empty());
    assert(spans_view(out@) + Seq::<(int, int)>::empty() =~= spans_view(out@));
    out
}


/// The tags found from `from` on lie after `from`, inside `t`, in order and
/// without overlap; each body starts after its `<img`.
pub proof fn lemma_img_tags_from(t: Seq<char>, from: int)
    requires
        0 <= from,
    ensures
        forall|k: int|
            0 <= k < img_tags_from(t, from).len() ==> from <= #[trigger] img_tags_from(t, from)[k].0
                && img_tags_from(t, from)[k].0 + 4 <= img_tags_from(t, from)[k].1
                && img_tags_from(t, from)[k].1 < t.len(),
        forall|k: int|
            0 < k < img_tags_from(t, from).len() ==> img_tags_from(t, from)[k - 1].1
                < #[trigger] img_tags_from(t, from)[k].0,
    decreases t.len() - from,
{
    lemma_next_img(t, from);
    match next_img(t, from) {
        Some((s, r)) => {
            lemma_img_tags_from(t, r + 1);
            let rest = img_tags_from(t, r + 1);
            let all = img_tags_from(t, from);
            assert(all =~= seq![(s, r)] + rest);
            assert forall|k: int| 0 <= k < all.len() implies from <= #[trigger] all[k].0 && all[k].0
                + 4 <= all[k].1 && all[k].1 < t.len() by {
                if k > 0 {
                    assert(all[k] == rest[k - 1]);
                }
            }
            assert forall|k: int| 0 < k < all.len() implies all[k - 1].1 < #[trigger] all[k].0 by {
                assert(all[k] == rest[k - 1]);
                if k > 1 {
                    assert(all[k - 1] == rest[k - 2]);
                }
            }
        },
        None => {},
    }
}

} // verus!
