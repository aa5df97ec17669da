//! Applying a suggested patch to a file's text.
//!
//! The `before` text is looked for verbatim first; failing that, both the file
//! and `before` are compared with every white-space run collapsed to one
//! space, and the match found there is mapped back to the original text.

use vstd::prelude::*;
use crate::llm::SuggestedPatch;
use crate::text::{
    contains,
    copy_range, find_chars, find_from, is_whitespace, is_ws, lemma_find_from, push_all, string_of,
    to_chars, trim_char, trimmed_char,
};
use crate::types::Issue;

verus! {

// ─── Normalisation ───────────────────────────────────────────────────────────

/// `s` with every maximal run of white space replaced by one space.
pub open spec fn normalize(s: Seq<char>) -> Seq<char>
    decreases s.len(),
{
    if s.len() == 0 {
        seq![]
    } else {
        let prev = normalize(s.drop_last());
        let c = s.last();
        if is_ws(c) {
            if s.len() >= 2 && is_ws(s[s.len() - 2]) {
                prev
            } else {
                prev.push(' ')
            }
        } else {
            prev.push(c)
        }
    }
}

/// Text with no white space but single spaces, none next to another.
pub open spec fn is_normal(s: Seq<char>) -> bool {
    forall|k: int|
        0 <= k < s.len() && is_ws(#[trigger] s[k]) ==> s[k] == ' ' && (k > 0 ==> !is_ws(s[k - 1]))
}

/// How `normalize` extends when one more character of `t` is read.
pub proof fn lemma_normalize_step(t: Seq<char>, i: int)
    requires
        0 <= i < t.len(),
    ensures
        normalize(t.take(i + 1)) == (if is_ws(t[i]) {
            if i > 0 && is_ws(t[i - 1]) {
                normalize(t.take(i))
            } else {
                normalize(t.take(i)).push(' ')
            }
        } else {
            normalize(t.take(i)).push(t[i])
        }),
{
    let s = t.take(i + 1);
    assert(s.drop_last() =~= t.take(i));
    assert(s.last() == t[i]);
    if i > 0 {
        assert(s[s.len() - 2] == t[i - 1]);
    }
}

/// The normal form is normal, no longer than the text, and ends in white
/// space exactly when the text does.
pub proof fn lemma_normalize_shape(s: Seq<char>)
    ensures
        is_normal(normalize(s)),
        normalize(s).len() <= s.len(),
        normalize(s).len() > 0 <==> s.len() > 0,
        s.len() > 0 ==> (is_ws(normalize(s).last()) <==> is_ws(s.last())),
    decreases s.len(),
{
    if s.len() > 0 {
        lemma_normalize_shape(s.drop_last());
        let p = normalize(s.drop_last());
        let n = normalize(s);
        assert forall|k: int| 0 <= k < n.len() && is_ws(#[trigger] n[k]) implies n[k] == ' ' && (k
            > 0 ==> !is_ws(n[k - 1])) by {
            if k < p.len() {
                assert(n[k] == p[k]);
                if k > 0 {
                    assert(n[k - 1] == p[k - 1]);
                }
            } else {
                if k > 0 {
                    assert(n[k - 1] == p[k - 1]);
                    assert(k - 1 == p.len() - 1);
                    if s.len() >= 2 {
                        assert(s.drop_last().last() == s[s.len() - 2]);
                    }
                }
            }
        }
    }
}

/// Normal text is its own normal form.
pub proof fn lemma_normal_fixed(s: Seq<char>)
    requires
        is_normal(s),
    ensures
        normalize(s) == s,
    decreases s.len(),
{
    if s.len() > 0 {
        let d = s.drop_last();
        assert forall|k: int| 0 <= k < d.len() && is_ws(#[trigger] d[k]) implies d[k] == ' ' && (k
            > 0 ==> !is_ws(d[k - 1])) by {
            assert(d[k] == s[k]);
            if k > 0 {
                assert(d[k - 1] == s[k - 1]);
            }
        }
        lemma_normal_fixed(d);
        assert(is_ws(s[s.len() - 1]) ==> s[s.len() - 1] == ' ');
        assert(d.push(s.last()) =~= s);
    }
}

/// Normalising twice is normalising once.
pub proof fn normalize_idempotent(s: Seq<char>)
    ensures
        normalize(normalize(s)) == normalize(s),
{
    lemma_normalize_shape(s);
    lemma_normal_fixed(normalize(s));
}

/// `t` with every white-space run collapsed to one space, as characters.
pub fn normalize_chars(t: &Vec<char>) -> (r: Vec<char>)
    ensures
        r@ == normalize(t@),
{
    let mut out: Vec<char> = Vec::new();
    let mut prev_ws = false;
    let mut i: usize = 0;
    assert(t@.take(0) =~= Seq::<char>::empty());
    while i < t.len()
        invariant
            i <= t@.len(),
            out@ == normalize(t@.take(i as int)),
            prev_ws == (i > 0 && is_ws(t@[i - 1])),
        decreases t@.len() - i,
    {
        let c = t[i];
        proof {
            lemma_normalize_step(t@, i as int);
        }
        if is_whitespace(c) {
            if !prev_ws {
                out.push(' ');
            }
            prev_ws = true;
        } else {
            out.push(c);
            prev_ws = false;
        }
        i = i + 1;
    }
    assert(t@.take(t@.len() as int) =~= t@);
    out
}

/// Collapses every run of white space (spaces, tabs, newlines, any Unicode
/// white space) in `s` to a single ASCII space.
pub fn normalize_ws(s: &str) -> (r: String)
    ensures
        r@ == normalize(s@),
{
    let t = to_chars(s);
    let n = normalize_chars(&t);
    string_of(&n)
}

// ─── Mapping back ────────────────────────────────────────────────────────────

/// The length of the normal form of the first `i` characters of `t`: the
/// position in the normalised text reached after reading them.
pub open spec fn norm_pos(t: Seq<char>, i: int) -> nat {
    normalize(t.take(i)).len()
}

/// The first index `>= i` (up to `t.len()`) whose normalised position is
/// `target`.
pub open spec fn first_at(t: Seq<char>, target: int, i: int) -> Option<int>
    decreases t.len() + 1 - i,
{
    if i < 0 || i > t.len() {
        None
    } else if norm_pos(t, i) == target {
        Some(i)
    } else {
        first_at(t, target, i + 1)
    }
}

/// The last index `<= hi` whose normalised position is `target`.
pub open spec fn last_at(t: Seq<char>, target: int, hi: int) -> Option<int>
    decreases hi + 1,
{
    if hi < 0 {
        None
    } else if norm_pos(t, hi) == target {
        Some(hi)
    } else {
        last_at(t, target, hi - 1)
    }
}

/// The span of `t` matching the span `[ns, ns + nl)` of its normal form: it
/// ends at the first index whose position is `ns + nl`, and starts at the last
/// index, not after the end (nor past the last character), whose position is
/// `ns`.
pub open spec fn denorm_span(t: Seq<char>, ns: int, nl: int) -> Option<(int, int)> {
    match first_at(t, ns + nl, 0) {
        Some(e) => {
            let hi = if e < t.len() {
                e
            } else {
                t.len() - 1
            };
            match last_at(t, ns, hi) {
                Some(s) => Some((s, e)),
                None => None,
            }
        },
        None => None,
    }
}

proof fn lemma_first_at(t: Seq<char>, target: int, i: int)
    requires
        0 <= i,
    ensures
        first_at(t, target, i) matches Some(e) ==> i <= e <= t.len() && norm_pos(t, e) == target
            && forall|k: int| i <= k < e ==> norm_pos(t, k) != target,
    decreases t.len() + 1 - i,
{
    if i <= t.len() && norm_pos(t, i) != target {
        lemma_first_at(t, target, i + 1);
    }
}

proof fn lemma_last_at(t: Seq<char>, target: int, hi: int)
    ensures
        last_at(t, target, hi) matches Some(s) ==> 0 <= s <= hi && norm_pos(t, s) == target
            && forall|k: int| s < k <= hi ==> norm_pos(t, k) != target,
    decreases hi + 1,
{
    if hi >= 0 && norm_pos(t, hi) != target {
        lemma_last_at(t, target, hi - 1);
    }
}

/// The normal form of a prefix of `t` is a prefix of the normal form of any
/// longer prefix.
proof fn lemma_norm_prefix(t: Seq<char>, i: int, j: int)
    requires
        0 <= i <= j <= t.len(),
    ensures
        norm_pos(t, i) <= norm_pos(t, j),
        normalize(t.take(j)).take(norm_pos(t, i) as int) == normalize(t.take(i)),
    decreases j - i,
{
    if i < j {
        lemma_norm_prefix(t, i, j - 1);
        lemma_normalize_step(t, j - 1);
        let a = normalize(t.take(j - 1));
        let b = normalize(t.take(j));
        assert(b.take(norm_pos(t, i) as int) =~= a.take(norm_pos(t, i) as int));
    } else {
        assert(normalize(t.take(j)).take(norm_pos(t, i) as int) =~= normalize(t.take(i)));
    }
}

/// Normalising `t[..e]` is normalising `t[..s]` and `t[s..e]` apart, unless
/// `t[s]` continues a white-space run begun before `s`.
proof fn lemma_norm_split(t: Seq<char>, s: int, e: int)
    requires
        0 <= s <= e <= t.len(),
        s < e && s > 0 ==> !(is_ws(t[s - 1]) && is_ws(t[s])),
    ensures
        normalize(t.take(e)) == normalize(t.take(s)) + normalize(t.subrange(s, e)),
    decreases e - s,
{
    if e == s {
        assert(t.subrange(s, e) =~= Seq::<char>::empty());
        assert(normalize(t.take(s)) + Seq::<char>::empty() =~= normalize(t.take(s)));
    } else {
        if e - 1 > s {
            lemma_norm_split(t, s, e - 1);
        } else {
            assert(t.subrange(s, s) =~= Seq::<char>::empty());
            assert(normalize(t.take(s)) + Seq::<char>::empty() =~= normalize(t.take(s)));
        }
        lemma_normalize_step(t, e - 1);
        let u = t.subrange(s, t.len() as int);
        lemma_normalize_step(u, e - 1 - s);
        assert(u.take(e - s) =~= t.subrange(s, e));
        assert(u.take(e - 1 - s) =~= t.subrange(s, e - 1));
        assert(u[e - 1 - s] == t[e - 1]);
        if e - 1 - s > 0 {
            assert(u[e - 2 - s] == t[e - 2]);
        }
        let a = normalize(t.take(s));
        let m = normalize(t.subrange(s, e - 1));
        assert((a + m).push(' ') =~= a + m.push(' '));
        assert((a + m).push(t[e - 1]) =~= a + m.push(t[e - 1]));
    }
}

/// The span found by `denorm_span` is a span of `t` whose normal form is
/// exactly the part `[ns, ns + nl)` of the normal form of `t`.
pub proof fn denorm_span_matches(t: Seq<char>, ns: int, nl: int)
    requires
        0 <= ns,
        0 <= nl,
    ensures
        denorm_span(t, ns, nl) matches Some((s, e)) ==> 0 <= s <= e <= t.len() && ns + nl
            <= normalize(t).len() && normalize(t.subrange(s, e)) == normalize(t).subrange(
            ns,
            ns + nl,
        ),
{
    lemma_first_at(t, ns + nl, 0);
    if let Some((s, e)) = denorm_span(t, ns, nl) {
        let hi = if e < t.len() {
            e
        } else {
            t.len() - 1
        };
        lemma_last_at(t, ns, hi);
        assert(s <= e);
        if s < e && s > 0 && is_ws(t[s - 1]) && is_ws(t[s]) {
            lemma_normalize_step(t, s);
            assert(norm_pos(t, s + 1) == norm_pos(t, s));
            if s + 1 <= hi {
                assert(false);
            } else {
                assert(norm_pos(t, s) == ns + nl);
                assert(false);
            }
        }
        lemma_norm_split(t, s, e);
        lemma_norm_prefix(t, e, t.len() as int);
        assert(t.take(t.len() as int) =~= t);
        let whole = normalize(t);
        let pre = normalize(t.take(e));
        assert(whole.take(ns + nl) == pre);
        assert(normalize(t.take(s)).len() == ns);
        assert(whole.subrange(ns, ns + nl) =~= pre.subrange(ns, ns + nl));
        assert(pre.subrange(ns, ns + nl) =~= normalize(t.subrange(s, e)));
    }
}

/// Reading one more character moves the normalised position by at most one.
proof fn lemma_pos_step(t: Seq<char>, i: int)
    requires
        0 <= i < t.len(),
    ensures
        norm_pos(t, i) <= norm_pos(t, i + 1) <= norm_pos(t, i) + 1,
{
    lemma_normalize_step(t, i);
}

/// Between two indices the normalised position passes every value between
/// theirs: some index in `[i, j]` has position `target`.
proof fn lemma_pos_reaches(t: Seq<char>, target: int, i: int, j: int) -> (k: int)
    requires
        0 <= i <= j <= t.len(),
        norm_pos(t, i) <= target <= norm_pos(t, j),
    ensures
        i <= k <= j,
        norm_pos(t, k) == target,
    decreases j - i,
{
    if norm_pos(t, i) == target {
        i
    } else {
        lemma_pos_step(t, i);
        lemma_pos_reaches(t, target, i + 1, j)
    }
}

proof fn lemma_first_at_found(t: Seq<char>, target: int, i: int, k: int)
    requires
        0 <= i <= k <= t.len(),
        norm_pos(t, k) == target,
    ensures
        first_at(t, target, i) is Some,
    decreases k - i,
{
    if norm_pos(t, i) != target {
        lemma_first_at_found(t, target, i + 1, k);
    }
}

proof fn lemma_last_at_found(t: Seq<char>, target: int, hi: int, k: int)
    requires
        0 <= k <= hi,
        norm_pos(t, k) == target,
    ensures
        last_at(t, target, hi) is Some,
    decreases hi - k,
{
    if norm_pos(t, hi) != target {
        lemma_last_at_found(t, target, hi - 1, k);
    }
}

/// A non-empty part of the normal form of `t` always has a span of `t` that
/// maps to it.
pub proof fn denorm_span_found(t: Seq<char>, ns: int, nl: int)
    requires
        0 <= ns,
        0 < nl,
        ns + nl <= normalize(t).len(),
    ensures
        denorm_span(t, ns, nl) is Some,
{
    let n = t.len() as int;
    assert(t.take(n) =~= t);
    assert(t.take(0) =~= Seq::<char>::empty());
    let k = lemma_pos_reaches(t, ns + nl, 0, n);
    lemma_first_at_found(t, ns + nl, 0, k);
    lemma_first_at(t, ns + nl, 0);
    let e = first_at(t, ns + nl, 0)->0;
    let f = lemma_pos_reaches(t, ns, 0, e);
    assert(f < e);
    let hi = if e < n {
        e
    } else {
        n - 1
    };
    lemma_last_at_found(t, ns, hi, f);
}

/// The span of `t` whose normal form is `[ns, ns + nl)` of the normal form of
/// `t` (see `denorm_span`), as characters.
pub fn denormalize_chars(t: &Vec<char>, ns: usize, nl: usize) -> (r: Option<(usize, usize)>)
    requires
        ns + nl <= usize::MAX,
    ensures
        r matches Some((s, e)) ==> denorm_span(t@, ns as int, nl as int) == Some((s as int, e as int))
            && s <= e <= t@.len(),
        r is None ==> denorm_span(t@, ns as int, nl as int) is None,
        0 < nl && ns + nl <= normalize(t@).len() ==> r is Some,
{
    proof {
        if 0 < nl && ns + nl <= normalize(t@).len() {
            denorm_span_found(t@, ns as int, nl as int);
        }
    }
    let ne = ns + nl;
    let mut pos: usize = 0;
    let mut in_ws = false;
    let mut start: Option<usize> = None;
    let mut end: Option<usize> = None;
    let mut i: usize = 0;
    assert(t@.take(0) =~= Seq::<char>::empty());
    while i < t.len()
        invariant_except_break
            i <= t@.len(),
            pos == norm_pos(t@, i as int),
            pos <= i,
            in_ws == (i > 0 && is_ws(t@[i - 1])),
            first_at(t@, ne as int, 0) == first_at(t@, ne as int, i as int),
            start matches Some(s) ==> last_at(t@, ns as int, i - 1) == Some(s as int),
            start is None ==> last_at(t@, ns as int, i - 1) is None,
            end is None,
        ensures
            end matches Some(e) ==> e < t@.len() && first_at(t@, ne as int, 0) == Some(e as int)
                && (start matches Some(s) ==> last_at(t@, ns as int, e as int) == Some(s as int))
                && (start is None ==> last_at(t@, ns as int, e as int) is None),
            end is None ==> i == t@.len() && pos == norm_pos(t@, i as int) && first_at(
                t@,
                ne as int,
                0,
            ) == first_at(t@, ne as int, i as int) && (start matches Some(s) ==> last_at(
                t@,
                ns as int,
                i - 1,
            ) == Some(s as int)) && (start is None ==> last_at(t@, ns as int, i - 1) is None),
        decreases t@.len() - i,
    {
        if pos == ns {
            start = Some(i);
        }
        if pos == ne {
            end = Some(i);
            break;
        }
        let c = t[i];
        proof {
            lemma_normalize_step(t@, i as int);
        }
        if is_whitespace(c) {
            if !in_ws {
                pos = pos + 1;
                in_ws = true;
            }
        } else {
            in_ws = false;
            pos = pos + 1;
        }
        i = i + 1;
    }
    if end.is_none() && pos == ne {
        end = Some(t.len());
    }
    proof {
        lemma_first_at(t@, ne as int, 0);
    }
    match (start, end) {
        (Some(s), Some(e)) => {
            proof {
                let hi = if e < t@.len() {
                    e as int
                } else {
                    t@.len() - 1
                };
                lemma_last_at(t@, ns as int, hi);
            }
            Some((s, e))
        },
        _ => {
            proof {
                if end is None {
                    assert(first_at(t@, ne as int, (t@.len() + 1) as int) is None);
                    assert(first_at(t@, ne as int, t@.len() as int) is None);
                }
            }
            None
        },
    }
}

/// Given a span `[norm_start, norm_start + norm_len)` of the normal form of
/// `original` (see `normalize_ws`), the span of `original` it came from.
pub fn denormalize_span(original: &str, norm_start: usize, norm_len: usize) -> (r: Option<
    (usize, usize),
>)
    requires
        norm_start + norm_len <= usize::MAX,
    ensures
        r matches Some((s, e)) ==> denorm_span(original@, norm_start as int, norm_len as int)
            == Some((s as int, e as int)) && s <= e <= original@.len(),
        r is None ==> denorm_span(original@, norm_start as int, norm_len as int) is None,
        0 < norm_len && norm_start + norm_len <= normalize(original@).len() ==> r is Some,
{
    let t = to_chars(original);
    denormalize_chars(&t, norm_start, norm_len)
}


// ─── Applying a patch ────────────────────────────────────────────────────────

/// The span of `contents` that the (trimmed) `before` text selects: its first
/// verbatim occurrence, else the span mapped back from the first occurrence of
/// the normal form of `before` in the normal form of `contents`.
pub open spec fn patch_span(contents: Seq<char>, before: Seq<char>) -> Option<(int, int)> {
    match find_from(contents, before, 0) {
        Some(i) => Some((i, i + before.len())),
        None => match find_from(normalize(contents), normalize(before), 0) {
            Some(ni) => denorm_span(contents, ni, normalize(before).len() as int),
            None => None,
        },
    }
}

/// The text of the file once the patch is applied: the selected span replaced
/// by `after`, both blocks first stripped of leading and trailing newlines.
pub open spec fn patched_text(contents: Seq<char>, before: Seq<char>, after: Seq<char>) -> Option<
    Seq<char>,
> {
    match patch_span(contents, trimmed_char(before, '\n')) {
        Some((s, e)) => Some(
            contents.subrange(0, s) + trimmed_char(after, '\n') + contents.subrange(
                e,
                contents.len() as int,
            ),
        ),
        None => None,
    }
}

/// The error given when the patch's `before` text is not found in `file`.
pub open spec fn not_found_message(file: Seq<char>) -> Seq<char> {
    "Could not locate the original snippet in '"@ + file
        + "' (tried exact and whitespace-normalized match).\nThe file may have been modified, or the LLM patch does not match the source."@
}

/// `t[..start] + after + t[end..]`.
fn splice_text(t: &Vec<char>, start: usize, end: usize, after: &Vec<char>) -> (r: String)
    requires
        start <= end <= t@.len(),
    ensures
        r@ == t@.subrange(0, start as int) + after@ + t@.subrange(end as int, t@.len() as int),
{
    let mut out = copy_range(t, 0, start);
    push_all(&mut out, after);
    let tail = copy_range(t, end, t.len());
    push_all(&mut out, &tail);
    string_of(&out)
}

/// The new text of the issue's file, `contents`, once `patch` is applied:
/// leading and trailing newlines are stripped from both blocks, then the first
/// verbatim occurrence of `before` is replaced by `after`; failing that, the
/// first occurrence found with white-space runs collapsed on both sides. When
/// neither is found the error names the issue's file.
pub fn apply_suggested_patch(issue: &Issue, patch: &SuggestedPatch, contents: &str) -> (r: Result<
    String,
    String,
>)
    ensures
        patched_text(contents@, patch.before@, patch.after@) matches Some(n) ==> (r matches Ok(s)
            && s@ == n),
        patched_text(contents@, patch.before@, patch.after@) is None ==> (r matches Err(m) && m@
            == not_found_message(issue.file@)),
{
    let t = to_chars(contents);
    let b0 = to_chars(patch.before.as_str());
    let before = trim_char(&b0, '\n');
    let a0 = to_chars(patch.after.as_str());
    let after = trim_char(&a0, '\n');
    proof {
        lemma_find_from(t@, before@, 0);
    }
    match find_chars(&t, &before, 0) {
        Some(i) => {
            let tl = t.len();
            assert(i + before@.len() <= tl);
            return Ok(splice_text(&t, i, i + before.len(), &after));
        },
        None => {},
    }
    let nt = normalize_chars(&t);
    let nb = normalize_chars(&before);
    match find_chars(&nt, &nb, 0) {
        Some(ni) => {
            let ntl = nt.len();
            assert(ni + nb@.len() <= ntl);
            match denormalize_chars(&t, ni, nb.len()) {
                Some((s, e)) => {
                    assert(patch_span(t@, before@) == Some((s as int, e as int)));
                    return Ok(splice_text(&t, s, e, &after));
                },
                None => {},
            }
        },
        None => {},
    }
    let mut msg = to_chars("Could not locate the original snippet in '");
    let f = to_chars(issue.file.as_str());
    push_all(&mut msg, &f);
    let tail = to_chars(
        "' (tried exact and whitespace-normalized match).\nThe file may have been modified, or the LLM patch does not match the source.",
    );
    push_all(&mut msg, &tail);
    Err(string_of(&msg))
}

/// Whichever way a patch is located, the text it replaces is a span of the
/// file that equals `before` once white-space runs are collapsed.
pub proof fn patch_replaces_equivalent_text(contents: Seq<char>, before: Seq<char>)
    ensures
        patch_span(contents, before) matches Some((s, e)) ==> 0 <= s <= e <= contents.len()
            && normalize(contents.subrange(s, e)) == normalize(before),
{
    lemma_find_from(contents, before, 0);
    if find_from(contents, before, 0) is None {
        let nc = normalize(contents);
        let nb = normalize(before);
        lemma_find_from(nc, nb, 0);
        if let Some(ni) = find_from(nc, nb, 0) {
            denorm_span_matches(contents, ni, nb.len() as int);
        }
    }
}

/// A patch whose `after` is its `before`, found verbatim, leaves the file as
/// it was.
pub proof fn same_text_patch_changes_nothing(contents: Seq<char>, block: Seq<char>)
    requires
        find_from(contents, trimmed_char(block, '\n'), 0) is Some,
    ensures
        patched_text(contents, block, block) == Some(contents),
{
    let b = trimmed_char(block, '\n');
    lemma_find_from(contents, b, 0);
    let i = find_from(contents, b, 0)->0;
    assert(contents.subrange(i, i + b.len()) =~= b);
    assert(contents.subrange(0, i) + b + contents.subrange(i + b.len(), contents.len() as int)
        =~= contents);
}

/// A patch is applied whenever its `before` text (leading and trailing
/// newlines removed) is found verbatim in the file, or its non-empty normal
/// form is found in the normal form of the file, whatever line breaks it has.
/// The new text is then the file with one span replaced by the `after` text
/// (newlines likewise removed), and that span equals `before` up to white
/// space.
pub proof fn patch_applies_when_found(contents: Seq<char>, before: Seq<char>, after: Seq<char>)
    ensures
        ({
            let b = trimmed_char(before, '\n');
            (contains(contents, b) || (normalize(b).len() > 0 && contains(
                normalize(contents),
                normalize(b),
            ))) ==> patched_text(contents, before, after) is Some
        }),
        patched_text(contents, before, after) matches Some(n) ==> exists|s: int, e: int|
            0 <= s <= e <= contents.len() && n == contents.subrange(0, s) + trimmed_char(
                after,
                '\n',
            ) + contents.subrange(e, contents.len() as int) && #[trigger] normalize(
                contents.subrange(s, e),
            ) == normalize(trimmed_char(before, '\n')),
{
    let b = trimmed_char(before, '\n');
    lemma_find_from(contents, b, 0);
    if find_from(contents, b, 0) is None && normalize(b).len() > 0 && contains(
        normalize(contents),
        normalize(b),
    ) {
        let nc = normalize(contents);
        let nb = normalize(b);
        lemma_find_from(nc, nb, 0);
        let ni = find_from(nc, nb, 0)->0;
        denorm_span_found(contents, ni, nb.len() as int);
    }
    patch_replaces_equivalent_text(contents, b);
    if let Some((s, e)) = patch_span(contents, b) {
        let n = contents.subrange(0, s) + trimmed_char(after, '\n') + contents.subrange(
            e,
            contents.len() as int,
        );
        assert(normalize(contents.subrange(s, e)) == normalize(b));
        assert(patched_text(contents, before, after) == Some(n));
    }
}

} // verus!
