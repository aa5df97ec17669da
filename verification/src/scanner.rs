//! Scanning one file's text: `<img>` tags with their checks, JSX `<Image>`
//! components without `alt`, and the bookkeeping of a directory scan.

use vstd::prelude::*;
use crate::checks::{
    check_missing_dimensions, check_missing_lazy, check_missing_srcset, check_oversized_file,
    check_wrong_format, dimension_issues, issue_view, lazy_issues, oversize_probe_paths,
    oversized_issues, probe_paths, srcset_issues, strings_view, wrong_format_issues,
};
use crate::paths::{extension_of, path_extension, path_strip_prefix, relative_path};
use crate::tags::{
    count_img_opens, find_img_tags, has_jsx_image, img_open_count_from, img_tags,
    lemma_img_tags_from, line_has_jsx_image, spans_view,
};
use crate::text::{
    lemma_contains_after_line, lemma_contains_before_newline, lemma_contains_iff,
    contains, contains_str, copy_range, equals_str, lines_of, lines_view, lowercase_chars,
    lowercased, push_all, split_lines, string_of, to_chars, trim_chars, trimmed,
};
use crate::types::{Issue, IssueKind, issues_view, IssueSeverity, IssueView, ScanResult};

verus! {

// ─── Snippets ────────────────────────────────────────────────────────────────

/// The number of bytes of `c` in UTF-8.
pub open spec fn utf8_len(c: char) -> nat {
    let u = c as u32;
    if u < 0x80 {
        1
    } else if u < 0x800 {
        2
    } else if u < 0x10000 {
        3
    } else {
        4
    }
}

fn utf8_width(c: char) -> (n: usize)
    ensures
        n == utf8_len(c),
{
    let u = c as u32;
    if u < 0x80 {
        1
    } else if u < 0x800 {
        2
    } else if u < 0x10000 {
        3
    } else {
        4
    }
}

/// The number of UTF-8 bytes of `s[0..k]`.
pub open spec fn bytes_upto(s: Seq<char>, k: int) -> nat
    decreases k,
{
    if k <= 0 || k > s.len() {
        0
    } else {
        bytes_upto(s, k - 1) + utf8_len(s[k - 1])
    }
}

/// The smallest `k >= i` at which `s[0..k]` has at least `limit` bytes
/// (`s.len()` when there is none).
pub open spec fn first_reach(s: Seq<char>, limit: nat, i: int) -> int
    decreases s.len() - i,
{
    if i >= s.len() || bytes_upto(s, i) >= limit {
        i
    } else {
        first_reach(s, limit, i + 1)
    }
}

/// The first `n` lines joined with `\n`.
pub open spec fn join_lines(ls: Seq<Seq<char>>) -> Seq<char>
    decreases ls.len(),
{
    if ls.len() == 0 {
        seq![]
    } else if ls.len() == 1 {
        ls[0]
    } else {
        join_lines(ls.drop_last()) + seq!['\n'] + ls.last()
    }
}

/// Up to five lines of a tag, joined with `\n`.
pub open spec fn tag_lines_joined(tag: Seq<char>) -> Seq<char> {
    let ls = lines_of(tag);
    join_lines(
        if ls.len() > 5 {
            ls.take(5)
        } else {
            ls
        },
    )
}

/// The snippet of a tag can be cut: its first five lines take at most 300
/// bytes, or a character ends exactly at byte 300.
pub open spec fn snippet_ok(tag: Seq<char>) -> bool {
    let j = tag_lines_joined(tag);
    bytes_upto(j, j.len() as int) <= 300 || bytes_upto(j, first_reach(j, 300, 0)) == 300
}

/// The snippet shown for a tag: its first five lines, cut to 300 bytes.
pub open spec fn snippet_of(tag: Seq<char>) -> Seq<char> {
    let j = tag_lines_joined(tag);
    if bytes_upto(j, j.len() as int) <= 300 {
        j
    } else {
        j.take(first_reach(j, 300, 0))
    }
}

proof fn lemma_first_reach(s: Seq<char>, limit: nat, i: int)
    requires
        0 <= i <= s.len(),
    ensures
        i <= first_reach(s, limit, i) <= s.len(),
    decreases s.len() - i,
{
    if i < s.len() && bytes_upto(s, i) < limit {
        lemma_first_reach(s, limit, i + 1);
    }
}

proof fn lemma_bytes_upto_mono(s: Seq<char>, a: int, b: int)
    requires
        0 <= a <= b <= s.len(),
    ensures
        bytes_upto(s, a) <= bytes_upto(s, b),
    decreases b - a,
{
    if a < b {
        lemma_bytes_upto_mono(s, a, b - 1);
    }
}

/// Joins up to five of the lines of `tag` with `\n`.
fn join_first_lines(tag: &Vec<char>) -> (r: Vec<char>)
    ensures
        r@ == tag_lines_joined(tag@),
{
    let ls = split_lines(tag);
    let ghost lv = lines_of(tag@);
    let n = if ls.len() > 5 {
        5
    } else {
        ls.len()
    };
    assert(lines_view(ls@).len() == ls@.len());
    let mut r: Vec<char> = Vec::new();
    let mut k: usize = 0;
    while k < n
        invariant
            k <= n <= ls@.len(),
            lines_view(ls@) == lv,
            r@ == join_lines(lv.take(k as int)),
        decreases n - k,
    {
        let ghost prev = lv.take(k as int);
        assert(lv.take(k + 1).drop_last() =~= prev);
        assert(lv.take(k + 1).last() == ls@[k as int]@);
        if k > 0 {
            r.push('\n');
        }
        push_all(&mut r, &ls[k]);
        proof {
            if k == 0 {
                assert(r@ =~= join_lines(lv.take(1)));
            } else {
                assert(r@ =~= join_lines(prev) + seq!['\n'] + ls@[k as int]@);
            }
        }
        k = k + 1;
    }
    assert(lv.take(n as int) =~= (if lv.len() > 5 {
        lv.take(5)
    } else {
        lv
    }));
    r
}

/// The snippet of a tag (`None` where the cut at byte 300 would split a
/// character).
fn cut_snippet(tag: &Vec<char>) -> (r: Option<Vec<char>>)
    ensures
        r is Some <==> snippet_ok(tag@),
        r matches Some(s) ==> s@ == snippet_of(tag@),
{
    let j = join_first_lines(tag);
    let mut k: usize = 0;
    let mut bytes: usize = 0;
    while k < j.len() && bytes < 300
        invariant
            k <= j@.len(),
            bytes == bytes_upto(j@, k as int),
            bytes < 300 || k == first_reach(j@, 300, 0),
            bytes < 300 ==> first_reach(j@, 300, 0) == first_reach(j@, 300, k as int),
        decreases j@.len() - k,
    {
        assert(first_reach(j@, 300, k as int) == first_reach(j@, 300, k + 1));
        bytes = bytes + utf8_width(j[k]);
        k = k + 1;
        assert(bytes >= 300 ==> first_reach(j@, 300, k as int) == k);
    }
    // total byte length
    let mut total = bytes;
    let mut m = k;
    while m < j.len() && total <= 300
        invariant
            k <= m <= j@.len(),
            total == bytes_upto(j@, m as int),
        decreases j@.len() - m,
    {
        total = total + utf8_width(j[m]);
        m = m + 1;
    }
    proof {
        lemma_first_reach(j@, 300, 0);
        lemma_bytes_upto_mono(j@, m as int, j@.len() as int);
        if bytes < 300 {
            assert(first_reach(j@, 300, k as int) == k);
        }
    }
    if total <= 300 && m == j.len() {
        Some(j)
    } else if bytes == 300 {
        Some(copy_range(&j, 0, k))
    } else {
        None
    }
}

// ─── Line numbers ────────────────────────────────────────────────────────────

/// The number of `\n` in `t[0..k]`.
pub open spec fn newlines_upto(t: Seq<char>, k: int) -> nat
    decreases k,
{
    if k <= 0 || k > t.len() {
        0
    } else {
        newlines_upto(t, k - 1) + (if t[k - 1] == '\n' {
            1nat
        } else {
            0nat
        })
    }
}


fn count_newlines(t: &Vec<char>, from: usize, to: usize, acc: usize) -> (r: usize)
    requires
        from <= to <= t@.len(),
        acc == newlines_upto(t@, from as int),
        acc <= from,
    ensures
        r == newlines_upto(t@, to as int),
        r <= to,
{
    let mut k = from;
    let mut n = acc;
    while k < to
        invariant
            from <= k <= to <= t@.len(),
            n == newlines_upto(t@, k as int),
            n <= k,
        decreases to - k,
    {
        if t[k] == '\n' {
            n = n + 1;
        }
        k = k + 1;
    }
    n
}

// ─── Issues of one file ──────────────────────────────────────────────────────

/// The issues of the `<img>` tag spanning `t[s..=r]`: the five checks, in
/// order, on its attribute text `t[s+4..r]`, at the line where it starts.
pub open spec fn tag_issues(
    path: Seq<char>,
    t: Seq<char>,
    root: Seq<char>,
    sizes: Seq<(String, u64)>,
    s: int,
    r: int,
) -> Seq<IssueView> {
    let attrs = t.subrange(s + 4, r);
    let tag = t.subrange(s, r + 1);
    let line = newlines_upto(t, s) as int + 1;
    let snip = snippet_of(tag);
    wrong_format_issues(path, line, snip, attrs) + dimension_issues(path, line, snip, attrs, tag)
        + lazy_issues(path, line, snip, attrs) + srcset_issues(path, line, snip, attrs)
        + oversized_issues(path, line, snip, attrs, root, sizes)
}

/// The issues of the tags `tags`, in order.
pub open spec fn tags_issues(
    path: Seq<char>,
    t: Seq<char>,
    root: Seq<char>,
    sizes: Seq<(String, u64)>,
    tags: Seq<(int, int)>,
) -> Seq<IssueView>
    decreases tags.len(),
{
    if tags.len() == 0 {
        seq![]
    } else {
        tags_issues(path, t, root, sizes, tags.drop_last()) + tag_issues(
            path,
            t,
            root,
            sizes,
            tags.last().0,
            tags.last().1,
        )
    }
}

/// A line that closes a JSX `<Image` component.
pub open spec fn closes_jsx(line: Seq<char>) -> bool {
    contains(line, "/>"@) || contains(line, "</Image>"@)
}

/// The first line at or after `j` that closes a component (`ls.len()` if none).
pub open spec fn jsx_end(ls: Seq<Seq<char>>, j: int) -> int
    decreases ls.len() - j,
{
    if j < 0 || j >= ls.len() {
        ls.len() as int
    } else if closes_jsx(ls[j]) {
        j
    } else {
        jsx_end(ls, j + 1)
    }
}

pub proof fn lemma_jsx_end(ls: Seq<Seq<char>>, j: int)
    requires
        0 <= j,
    ensures
        j <= jsx_end(ls, j) <= ls.len() || (j > ls.len() && jsx_end(ls, j) == ls.len()),
    decreases ls.len() - j,
{
    if j < ls.len() && !closes_jsx(ls[j]) {
        lemma_jsx_end(ls, j + 1);
    }
}

/// The lines `ls[i..e]`, each followed by `\n`.
pub open spec fn line_block(ls: Seq<Seq<char>>, i: int, e: int) -> Seq<char>
    decreases e - i,
{
    if e <= i {
        seq![]
    } else {
        line_block(ls, i, e - 1) + ls[e - 1] + seq!['\n']
    }
}

/// The snippet shown for a JSX component: its first line, trimmed, at most 80
/// characters.
pub open spec fn jsx_snippet(line: Seq<char>) -> Seq<char> {
    let tl = trimmed(line);
    if tl.len() > 80 {
        tl.take(80)
    } else {
        tl
    }
}

/// The JSX `<Image` components from line `i` on that lack `alt=`: a component
/// starts on a line holding `<Image` and runs to the first line holding `/>`
/// or `</Image>`; scanning resumes after it.
pub open spec fn jsx_issues(path: Seq<char>, ls: Seq<Seq<char>>, i: int) -> Seq<IssueView>
    decreases ls.len() + 1 - i,
{
    if i < 0 || i >= ls.len() {
        seq![]
    } else if has_jsx_image(ls[i]) {
        proof {
            lemma_jsx_end(ls, i);
        }
        let j = jsx_end(ls, i);
        let e = if j < ls.len() {
            j + 1
        } else {
            ls.len() as int
        };
        if i <= j <= ls.len() {
            let rest = jsx_issues(path, ls, j + 1);
            if contains(line_block(ls, i, e), "alt="@) {
                rest
            } else {
                seq![
                    issue_view(
                        IssueKind::MissingAlt,
                        IssueSeverity::Warning,
                        path,
                        i + 1,
                        jsx_snippet(ls[i]),
                        "JSX <Image> component missing alt attribute (accessibility + SEO)."@,
                    ),
                ] + rest
            }
        } else {
            seq![]
        }
    } else {
        jsx_issues(path, ls, i + 1)
    }
}

/// Every issue of a file: its `<img>` tags in order, then its JSX components.
pub open spec fn file_issues(
    path: Seq<char>,
    t: Seq<char>,
    root: Seq<char>,
    sizes: Seq<(String, u64)>,
) -> Seq<IssueView> {
    tags_issues(path, t, root, sizes, img_tags(t)) + jsx_issues(path, lines_of(t), 0)
}

/// Scanning the file is defined: no tag snippet cut splits a character (the
/// cut at byte 300 falls between characters).
pub open spec fn scan_defined(t: Seq<char>) -> bool {
    forall|k: int|
        0 <= k < img_tags(t).len() ==> #[trigger] snippet_ok(
            t.subrange(img_tags(t)[k].0, img_tags(t)[k].1 + 1),
        )
}


// ─── What a JSX component is ─────────────────────────────────────────────────

proof fn lemma_line_block_end(ls: Seq<Seq<char>>, i: int, e: int)
    ensures
        line_block(ls, i, e).len() == 0 || line_block(ls, i, e).last() == '\n',
{
}

/// A text without newlines occurs in the lines `ls[i..e]` joined with
/// newlines exactly when it occurs in one of them.
proof fn lemma_line_block_contains(ls: Seq<Seq<char>>, i: int, e: int, p: Seq<char>)
    requires
        0 <= i <= e <= ls.len(),
        p.len() > 0,
        forall|k: int| 0 <= k < p.len() ==> p[k] != '\n',
    ensures
        contains(line_block(ls, i, e), p) <==> exists|m: int| i <= m < e && #[trigger] contains(
            ls[m],
            p,
        ),
    decreases e - i,
{
    if e == i {
        assert(line_block(ls, i, e) =~= Seq::<char>::empty());
        lemma_contains_iff(line_block(ls, i, e), p);
    } else {
        lemma_line_block_contains(ls, i, e - 1, p);
        let x = line_block(ls, i, e - 1);
        let y = ls[e - 1];
        lemma_line_block_end(ls, i, e - 1);
        assert(line_block(ls, i, e) =~= x + (y + seq!['\n']));
        lemma_contains_after_line(x, y + seq!['\n'], p);
        lemma_contains_before_newline(y, p);
    }
}

proof fn lemma_jsx_end_at(ls: Seq<Seq<char>>, i: int, k: int)
    requires
        0 <= i <= k < ls.len(),
        closes_jsx(ls[k]),
        forall|m: int| i <= m < k ==> !closes_jsx(#[trigger] ls[m]),
    ensures
        jsx_end(ls, i) == k,
    decreases k - i,
{
    if i < k {
        lemma_jsx_end_at(ls, i + 1, k);
    }
}

/// A JSX component is the lines from the one holding `<Image` to the first
/// line at or after it holding `/>` or `</Image>`: it is reported, at its first
/// line with that line trimmed to at most 80 characters, exactly when none of
/// its lines holds `alt=`, and scanning goes on after its last line.
pub proof fn jsx_component_runs_to_first_closing_line(
    path: Seq<char>,
    ls: Seq<Seq<char>>,
    i: int,
    k: int,
)
    requires
        0 <= i <= k < ls.len(),
        has_jsx_image(ls[i]),
        contains(ls[k], "/>"@) || contains(ls[k], "</Image>"@),
        forall|m: int|
            i <= m < k ==> !contains(#[trigger] ls[m], "/>"@) && !contains(ls[m], "</Image>"@),
    ensures
        jsx_issues(path, ls, i) == (if exists|m: int|
            i <= m <= k && #[trigger] contains(ls[m], "alt="@) {
            seq![]
        } else {
            seq![
                IssueView {
                    kind: IssueKind::MissingAlt,
                    severity: IssueSeverity::Warning,
                    file: path,
                    line: i + 1,
                    snippet: if trimmed(ls[i]).len() > 80 {
                        trimmed(ls[i]).take(80)
                    } else {
                        trimmed(ls[i])
                    },
                    message: "JSX <Image> component missing alt attribute (accessibility + SEO)."@,
                },
            ]
        }) + jsx_issues(path, ls, k + 1),
{
    assert forall|m: int| i <= m < k implies !closes_jsx(#[trigger] ls[m]) by {
        assert(!contains(ls[m], "/>"@) && !contains(ls[m], "</Image>"@));
    }
    lemma_jsx_end_at(ls, i, k);
    reveal_strlit("alt=");
    lemma_line_block_contains(ls, i, k + 1, "alt="@);
    let b = exists|m: int| i <= m <= k && #[trigger] contains(ls[m], "alt="@);
    assert(b <==> exists|m: int| i <= m < k + 1 && #[trigger] contains(ls[m], "alt="@));
    if !b {
        assert(Seq::<IssueView>::empty() + jsx_issues(path, ls, k + 1) =~= jsx_issues(
            path,
            ls,
            k + 1,
        ));
    }
}

proof fn lemma_jsx_end_none(ls: Seq<Seq<char>>, i: int)
    requires
        0 <= i <= ls.len(),
        forall|m: int| i <= m < ls.len() ==> !closes_jsx(#[trigger] ls[m]),
    ensures
        jsx_end(ls, i) == ls.len(),
    decreases ls.len() - i,
{
    if i < ls.len() {
        lemma_jsx_end_none(ls, i + 1);
    }
}

/// A JSX component that no later line closes runs to the end of the file: it
/// is reported at its first line exactly when none of the lines from there on
/// holds `alt=`, and nothing after it is reported.
pub proof fn unclosed_jsx_component_runs_to_end(path: Seq<char>, ls: Seq<Seq<char>>, i: int)
    requires
        0 <= i < ls.len(),
        has_jsx_image(ls[i]),
        forall|m: int|
            i <= m < ls.len() ==> !contains(#[trigger] ls[m], "/>"@) && !contains(
                ls[m],
                "</Image>"@,
            ),
    ensures
        jsx_issues(path, ls, i) == (if exists|m: int|
            i <= m < ls.len() && #[trigger] contains(ls[m], "alt="@) {
            seq![]
        } else {
            seq![
                IssueView {
                    kind: IssueKind::MissingAlt,
                    severity: IssueSeverity::Warning,
                    file: path,
                    line: i + 1,
                    snippet: if trimmed(ls[i]).len() > 80 {
                        trimmed(ls[i]).take(80)
                    } else {
                        trimmed(ls[i])
                    },
                    message: "JSX <Image> component missing alt attribute (accessibility + SEO)."@,
                },
            ]
        }),
{
    assert forall|m: int| i <= m < ls.len() implies !closes_jsx(#[trigger] ls[m]) by {
        assert(!contains(ls[m], "/>"@) && !contains(ls[m], "</Image>"@));
    }
    lemma_jsx_end_none(ls, i);
    reveal_strlit("alt=");
    lemma_line_block_contains(ls, i, ls.len() as int, "alt="@);
    let issue = seq![
        issue_view(
            IssueKind::MissingAlt,
            IssueSeverity::Warning,
            path,
            i + 1,
            jsx_snippet(ls[i]),
            "JSX <Image> component missing alt attribute (accessibility + SEO)."@,
        ),
    ];
    assert(jsx_issues(path, ls, (ls.len() + 1) as int) =~= Seq::<IssueView>::empty());
    assert(issue + Seq::<IssueView>::empty() =~= issue);
}

// ─── What every reported issue satisfies ─────────────────────────────────────

/// The severity each kind of issue is reported with.
pub open spec fn kind_severity(k: IssueKind) -> IssueSeverity {
    match k {
        IssueKind::WrongFormat => IssueSeverity::Warning,
        IssueKind::MissingWidthHeight => IssueSeverity::Error,
        IssueKind::MissingLazyLoading => IssueSeverity::Warning,
        IssueKind::OversizedFile => IssueSeverity::Error,
        IssueKind::MissingSrcset => IssueSeverity::Info,
        IssueKind::MissingAlt => IssueSeverity::Warning,
    }
}

/// Every issue of `v` names the file `path` and has its kind's severity.
pub open spec fn attributed(v: Seq<IssueView>, path: Seq<char>) -> bool {
    forall|k: int|
        0 <= k < v.len() ==> (#[trigger] v[k]).file == path && v[k].severity == kind_severity(
            v[k].kind,
        )
}

proof fn lemma_attributed_concat(a: Seq<IssueView>, b: Seq<IssueView>, path: Seq<char>)
    requires
        attributed(a, path),
        attributed(b, path),
    ensures
        attributed(a + b, path),
{
    assert forall|k: int| 0 <= k < (a + b).len() implies (#[trigger] (a + b)[k]).file == path
        && (a + b)[k].severity == kind_severity((a + b)[k].kind) by {
        if k < a.len() {
            assert((a + b)[k] == a[k]);
        } else {
            assert((a + b)[k] == b[k - a.len()]);
        }
    }
}

proof fn lemma_tags_attributed(
    path: Seq<char>,
    t: Seq<char>,
    root: Seq<char>,
    sizes: Seq<(String, u64)>,
    tags: Seq<(int, int)>,
)
    ensures
        attributed(tags_issues(path, t, root, sizes, tags), path),
    decreases tags.len(),
{
    if tags.len() > 0 {
        lemma_tags_attributed(path, t, root, sizes, tags.drop_last());
        let s = tags.last().0;
        let r = tags.last().1;
        let attrs = t.subrange(s + 4, r);
        let tag = t.subrange(s, r + 1);
        let line = newlines_upto(t, s) as int + 1;
        let snip = snippet_of(tag);
        let a = wrong_format_issues(path, line, snip, attrs);
        let b = dimension_issues(path, line, snip, attrs, tag);
        let c = lazy_issues(path, line, snip, attrs);
        let d = srcset_issues(path, line, snip, attrs);
        let e = oversized_issues(path, line, snip, attrs, root, sizes);
        lemma_attributed_concat(a, b, path);
        lemma_attributed_concat(a + b, c, path);
        lemma_attributed_concat(a + b + c, d, path);
        lemma_attributed_concat(a + b + c + d, e, path);
        lemma_attributed_concat(
            tags_issues(path, t, root, sizes, tags.drop_last()),
            a + b + c + d + e,
            path,
        );
    }
}

proof fn lemma_jsx_attributed(path: Seq<char>, ls: Seq<Seq<char>>, i: int)
    ensures
        attributed(jsx_issues(path, ls, i), path),
    decreases ls.len() + 1 - i,
{
    if 0 <= i < ls.len() {
        if has_jsx_image(ls[i]) {
            lemma_jsx_end(ls, i);
            let j = jsx_end(ls, i);
            if i <= j <= ls.len() {
                lemma_jsx_attributed(path, ls, j + 1);
                let rest = jsx_issues(path, ls, j + 1);
                let one = seq![
                    issue_view(
                        IssueKind::MissingAlt,
                        IssueSeverity::Warning,
                        path,
                        i + 1,
                        jsx_snippet(ls[i]),
                        "JSX <Image> component missing alt attribute (accessibility + SEO)."@,
                    ),
                ];
                lemma_attributed_concat(one, rest, path);
            }
        } else {
            lemma_jsx_attributed(path, ls, i + 1);
        }
    }
}

/// Every issue a scan of a file reports names that file and carries the
/// severity of its kind: wrong format, missing lazy loading and missing alt
/// are warnings, missing dimensions and oversized files errors, missing
/// srcset informational.
pub proof fn scan_issues_are_attributed(
    path: Seq<char>,
    t: Seq<char>,
    root: Seq<char>,
    sizes: Seq<(String, u64)>,
)
    ensures
        attributed(file_issues(path, t, root, sizes), path),
{
    lemma_tags_attributed(path, t, root, sizes, img_tags(t));
    lemma_jsx_attributed(path, lines_of(t), 0);
    lemma_attributed_concat(
        tags_issues(path, t, root, sizes, img_tags(t)),
        jsx_issues(path, lines_of(t), 0),
        path,
    );
}

// ─── Executable scan ─────────────────────────────────────────────────────────

/// The first line at or after `j` that closes a component.
fn find_jsx_end(lines: &Vec<Vec<char>>, j: usize) -> (r: usize)
    requires
        j <= lines@.len(),
    ensures
        r == jsx_end(lines_view(lines@), j as int),
        j <= r <= lines@.len(),
{
    let ghost lv = lines_view(lines@);
    let mut k = j;
    while k < lines.len()
        invariant
            j <= k <= lines@.len(),
            lv == lines_view(lines@),
            jsx_end(lv, j as int) == jsx_end(lv, k as int),
        decreases lines@.len() - k,
    {
        assert(lv[k as int] == lines@[k as int]@);
        if contains_str(&lines[k], "/>") || contains_str(&lines[k], "</Image>") {
            return k;
        }
        k = k + 1;
    }
    k
}

/// The lines `lines[i..e]`, each followed by `\n`.
fn block_of(lines: &Vec<Vec<char>>, i: usize, e: usize) -> (r: Vec<char>)
    requires
        i <= e <= lines@.len(),
    ensures
        r@ == line_block(lines_view(lines@), i as int, e as int),
{
    let ghost lv = lines_view(lines@);
    let mut r: Vec<char> = Vec::new();
    let mut k = i;
    while k < e
        invariant
            i <= k <= e <= lines@.len(),
            lv == lines_view(lines@),
            r@ == line_block(lv, i as int, k as int),
        decreases e - k,
    {
        assert(lv[k as int] == lines@[k as int]@);
        push_all(&mut r, &lines[k]);
        r.push('\n');
        k = k + 1;
    }
    r
}

/// Appends an issue for every JSX `<Image` component that lacks `alt=`.
fn scan_jsx_image_component(path: &str, lines: &Vec<Vec<char>>, issues: &mut Vec<Issue>)
    ensures
        issues_view(final(issues)@) == issues_view(old(issues)@) + jsx_issues(
            path@,
            lines_view(lines@),
            0,
        ),
{
    let ghost lv = lines_view(lines@);
    let mut i: usize = 0;
    while i < lines.len()
        invariant
            i <= lines@.len(),
            lv == lines_view(lines@),
            issues_view(issues@) + jsx_issues(path@, lv, i as int) == issues_view(old(issues)@)
                + jsx_issues(path@, lv, 0),
        decreases lines@.len() - i,
    {
        assert(lv[i as int] == lines@[i as int]@);
        if line_has_jsx_image(&lines[i]) {
            let j = find_jsx_end(lines, i);
            let e = if j < lines.len() {
                j + 1
            } else {
                lines.len()
            };
            let buf = block_of(lines, i, e);
            let next = if j < lines.len() {
                j + 1
            } else {
                lines.len()
            };
            assert(jsx_issues(path@, lv, next as int) == jsx_issues(path@, lv, j + 1));
            if !contains_str(&buf, "alt=") {
                let tl = trim_chars(&lines[i]);
                let cut = if tl.len() > 80 {
                    80
                } else {
                    tl.len()
                };
                let snip = copy_range(&tl, 0, cut);
                assert(snip@ =~= jsx_snippet(lv[i as int]));
                let issue = Issue {
                    kind: IssueKind::MissingAlt,
                    severity: IssueSeverity::Warning,
                    file: path.to_owned(),
                    line: i + 1,
                    snippet: string_of(&snip),
                    message: "JSX <Image> component missing alt attribute (accessibility + SEO).".to_owned(),
                };
                let ghost before = issues_view(issues@);
                issues.push(issue);
                assert(issues_view(issues@) =~= before.push(issue@));
                assert(issues_view(issues@) + jsx_issues(path@, lv, next as int) =~= before
                    + jsx_issues(path@, lv, i as int));
            }
            i = next;
        } else {
            i = i + 1;
        }
    }
}

/// Whether scanning `content` is defined (see `scan_defined`): where it is
/// not, a tag's 300-byte snippet cut would split a character.
pub fn scan_file_defined(content: &str) -> (b: bool)
    ensures
        b == scan_defined(content@),
{
    let t = to_chars(content);
    let spans = find_img_tags(&t);
    proof {
        lemma_img_tags_from(t@, 0);
    }
    let ghost tags = img_tags(t@);
    let mut k: usize = 0;
    while k < spans.len()
        invariant
            spans_view(spans@) == tags,
            tags == img_tags(t@),
            t@ == content@,
            k <= spans@.len(),
            forall|m: int|
                0 <= m < tags.len() ==> 0 <= #[trigger] tags[m].0 && tags[m].0 + 4 <= tags[m].1
                    && tags[m].1 < t@.len(),
            forall|m: int|
                0 <= m < k ==> #[trigger] snippet_ok(t@.subrange(tags[m].0, tags[m].1 + 1)),
        decreases spans@.len() - k,
    {
        let (s, r) = spans[k];
        let tl = t.len();
        assert(tags[k as int] == (s as int, r as int));
        let tag_v = copy_range(&t, s, r + 1);
        if cut_snippet(&tag_v).is_none() {
            return false;
        }
        k = k + 1;
    }
    true
}

/// Scans the text of one file: for every `<img>` tag, in order, the five
/// checks (wrong format, missing dimensions, missing lazy loading, missing
/// srcset, oversized file — looked up in `sizes`), then every JSX `<Image`
/// component without `alt`. Issues carry `path` and the line where their tag
/// starts; a tag's snippet is its first five lines, cut to 300 bytes.
pub fn scan_file(path: &str, content: &str, root: &str, sizes: &Vec<(String, u64)>) -> (r: Vec<Issue>)
    requires
        scan_defined(content@),
    ensures
        issues_view(r@) == file_issues(path@, content@, root@, sizes@),
{
    let t = to_chars(content);
    let spans = find_img_tags(&t);
    proof {
        lemma_img_tags_from(t@, 0);
    }
    let ghost tags = img_tags(t@);
    let mut issues: Vec<Issue> = Vec::new();
    let mut pos: usize = 0;
    let mut nl: usize = 0;
    let mut k: usize = 0;
    assert(issues_view(issues@) =~= tags_issues(path@, t@, root@, sizes@, tags.take(0)));
    while k < spans.len()
        invariant
            spans_view(spans@) == tags,
            tags == img_tags(t@),
            t@ == content@,
            scan_defined(t@),
            k <= spans@.len(),
            pos <= t@.len(),
            nl == newlines_upto(t@, pos as int),
            nl <= pos,
            k < tags.len() ==> pos <= tags[k as int].0,
            forall|m: int|
                0 <= m < tags.len() ==> 0 <= #[trigger] tags[m].0 && tags[m].0 + 4 <= tags[m].1
                    && tags[m].1 < t@.len(),
            forall|m: int| 0 < m < tags.len() ==> tags[m - 1].1 < #[trigger] tags[m].0,
            issues_view(issues@) == tags_issues(path@, t@, root@, sizes@, tags.take(k as int)),
        decreases spans@.len() - k,
    {
        let (s, r) = spans[k];
        assert(tags[k as int] == (s as int, r as int));
        nl = count_newlines(&t, pos, s, nl);
        pos = s;
        let line = nl + 1;
        assert(snippet_ok(t@.subrange(tags[k as int].0, tags[k as int].1 + 1)));
        let ghost before = issues_view(issues@);
        scan_tag(path, &t, root, sizes, s, r, line, &mut issues);
        proof {
            let tk1 = tags.take(k + 1);
            assert(tk1.drop_last() =~= tags.take(k as int));
            assert(tk1.last() == (s as int, r as int));
        }
        k = k + 1;
        proof {
            if k < tags.len() {
                assert(tags[k - 1].1 < tags[k as int].0);
            }
        }
    }
    assert(tags.take(k as int) =~= tags);
    let lines = split_lines(&t);
    scan_jsx_image_component(path, &lines, &mut issues);
    issues
}

/// Scans the text of one file (see `scan_file`) when that is defined, else
/// gives `None` (a tag snippet's 300-byte cut would split a character).
pub fn scan_file_checked(path: &str, content: &str, root: &str, sizes: &Vec<(String, u64)>) -> (r:
    Option<Vec<Issue>>)
    ensures
        r is None <==> !scan_defined(content@),
        r matches Some(v) ==> issues_view(v@) == file_issues(path@, content@, root@, sizes@),
{
    if scan_file_defined(content) {
        Some(scan_file(path, content, root, sizes))
    } else {
        None
    }
}

/// Appends the issues of the tag spanning `t[s..=r]`, which starts on `line`.
#[verifier::spinoff_prover]
#[verifier::rlimit(30)]
fn scan_tag(
    path: &str,
    t: &Vec<char>,
    root: &str,
    sizes: &Vec<(String, u64)>,
    s: usize,
    r: usize,
    line: usize,
    issues: &mut Vec<Issue>,
)
    requires
        s + 4 <= r < t@.len(),
        line == newlines_upto(t@, s as int) + 1,
        snippet_ok(t@.subrange(s as int, r + 1)),
    ensures
        issues_view(final(issues)@) == issues_view(old(issues)@) + tag_issues(
            path@,
            t@,
            root@,
            sizes@,
            s as int,
            r as int,
        ),
{
    let tl = t.len();
    let attrs = string_of_range_chars(t, s + 4, r);
    let tag_v = copy_range(t, s, r + 1);
    let tag = string_of(&tag_v);
    let snippet = match cut_snippet(&tag_v) {
        Some(v) => string_of(&v),
        None => String::new(),
    };
    check_wrong_format(path, line, snippet.as_str(), attrs.as_str(), issues);
    check_missing_dimensions(path, line, snippet.as_str(), attrs.as_str(), tag.as_str(), issues);
    check_missing_lazy(path, line, snippet.as_str(), attrs.as_str(), issues);
    check_missing_srcset(path, line, snippet.as_str(), attrs.as_str(), issues);
    check_oversized_file(path, line, snippet.as_str(), attrs.as_str(), root, sizes, issues);
    assert(issues_view(issues@) =~= issues_view(old(issues)@) + tag_issues(
        path@,
        t@,
        root@,
        sizes@,
        s as int,
        r as int,
    ));
}

/// `t[from..to]` as a `String`.
fn string_of_range_chars(t: &Vec<char>, from: usize, to: usize) -> (s: String)
    requires
        from <= to <= t@.len(),
    ensures
        s@ == t@.subrange(from as int, to as int),
{
    crate::text::string_of_range(t, from, to)
}


// ─── Counting and file selection ─────────────────────────────────────────────

/// The number of `<img` openings in `content` (matches of `(?i)<img\b`).
pub fn count_img_tags(content: &str) -> (n: usize)
    ensures
        n == img_open_count_from(content@, 0),
{
    let t = to_chars(content);
    count_img_opens(&t)
}

/// A path in a dependency, VCS or build-output directory.
pub open spec fn skipped_path(p: Seq<char>) -> bool {
    ||| contains(p, "node_modules"@)
    ||| contains(p, "/.git/"@)
    ||| contains(p, "/dist/"@)
    ||| contains(p, "/build/"@)
    ||| contains(p, "/.next/"@)
}

/// The path lies in `node_modules` or a `.git`, `dist`, `build` or `.next`
/// directory.
pub fn should_skip(path: &str) -> (b: bool)
    ensures
        b == skipped_path(path@),
{
    let p = to_chars(path);
    contains_str(&p, "node_modules") || contains_str(&p, "/.git/") || contains_str(&p, "/dist/")
        || contains_str(&p, "/build/") || contains_str(&p, "/.next/")
}

/// A lower-cased extension of a scanned file type.
pub open spec fn supported_extension(l: Seq<char>) -> bool {
    ||| l == "html"@
    ||| l == "phtml"@
    ||| l == "htm"@
    ||| l == "jsx"@
    ||| l == "tsx"@
    ||| l == "js"@
    ||| l == "ts"@
    ||| l == "vue"@
    ||| l == "svelte"@
    ||| l == "hbs"@
    ||| l == "ejs"@
    ||| l == "njk"@
    ||| l == "php"@
}

/// The extension (compared in lower case) is one of the scanned file types.
pub fn is_supported_extension(ext: &str) -> (b: bool)
    ensures
        b == supported_extension(lowercased(ext@)),
{
    let e = to_chars(ext);
    let l = lowercase_chars(&e);
    is_supported_lower(&l)
}

/// The lower-cased extension `l` is one of the scanned file types.
pub fn is_supported_lower(l: &Vec<char>) -> (b: bool)
    ensures
        b == supported_extension(l@),
{
    equals_str(l, "html") || equals_str(l, "phtml") || equals_str(l, "htm") || equals_str(l, "jsx")
        || equals_str(l, "tsx") || equals_str(l, "js") || equals_str(l, "ts") || equals_str(l, "vue")
        || equals_str(l, "svelte") || equals_str(l, "hbs") || equals_str(l, "ejs") || equals_str(
        l,
        "njk",
    ) || equals_str(l, "php")
}

/// A directory walk scans a file with extension `ext` (empty when it has none)
/// at `path` exactly when the extension is supported and the path not skipped.
pub fn should_scan(path: &str, ext: &str) -> (b: bool)
    ensures
        b == (supported_extension(lowercased(ext@)) && !skipped_path(path@)),
{
    is_supported_extension(ext) && !should_skip(path)
}

/// The extension a directory walk compares: the file's extension, or the
/// empty text when it has none.
pub open spec fn walk_extension(path: Seq<char>) -> Seq<char> {
    match extension_of(path) {
        Some(e) => e,
        None => seq![],
    }
}

/// A directory walk scans the file at `path`: its extension (in lower case)
/// is a scanned file type and it lies outside skipped directories.
pub fn is_scanned_file(path: &str) -> (b: bool)
    ensures
        b == (supported_extension(lowercased(walk_extension(path@))) && !skipped_path(path@)),
{
    let ext = match path_extension(path) {
        Some(e) => e,
        None => String::new(),
    };
    should_scan(path, ext.as_str())
}

// ─── Sizes to look up ────────────────────────────────────────────────────────

/// The files to look up for the tags `tags` of `t`, in order.
pub open spec fn tags_probe_paths(
    path: Seq<char>,
    t: Seq<char>,
    root: Seq<char>,
    tags: Seq<(int, int)>,
) -> Seq<Seq<char>>
    decreases tags.len(),
{
    if tags.len() == 0 {
        seq![]
    } else {
        tags_probe_paths(path, t, root, tags.drop_last()) + probe_paths(
            path,
            t.subrange(tags.last().0 + 4, tags.last().1),
            root,
        )
    }
}

/// Every file whose size `scan_file` may consult for `content`.
pub fn image_probe_paths(path: &str, content: &str, root: &str) -> (r: Vec<String>)
    ensures
        strings_view(r@) == tags_probe_paths(path@, content@, root@, img_tags(content@)),
{
    let t = to_chars(content);
    let spans = find_img_tags(&t);
    proof {
        lemma_img_tags_from(t@, 0);
    }
    let ghost tags = img_tags(t@);
    let mut out: Vec<String> = Vec::new();
    let mut k: usize = 0;
    assert(strings_view(out@) =~= tags_probe_paths(path@, t@, root@, tags.take(0)));
    while k < spans.len()
        invariant
            spans_view(spans@) == tags,
            tags == img_tags(t@),
            t@ == content@,
            k <= spans@.len(),
            forall|m: int|
                0 <= m < tags.len() ==> 0 <= #[trigger] tags[m].0 && tags[m].0 + 4 <= tags[m].1
                    && tags[m].1 < t@.len(),
            strings_view(out@) == tags_probe_paths(path@, t@, root@, tags.take(k as int)),
        decreases spans@.len() - k,
    {
        let (s, r) = spans[k];
        assert(tags[k as int] == (s as int, r as int));
        let attrs = string_of_range_chars(&t, s + 4, r);
        let more = oversize_probe_paths(path, attrs.as_str(), root);
        let ghost before = strings_view(out@);
        let mut m: usize = 0;
        while m < more.len()
            invariant
                m <= more@.len(),
                strings_view(out@) == before + strings_view(more@).take(m as int),
            decreases more@.len() - m,
        {
            let item = more[m].clone();
            assert(item@ == strings_view(more@)[m as int]);
            let ghost prev = strings_view(out@);
            out.push(item);
            assert(strings_view(out@) =~= prev.push(item@));
            m = m + 1;
            assert(strings_view(out@) =~= before + strings_view(more@).take(m as int));
        }
        proof {
            let tk1 = tags.take(k + 1);
            assert(tk1.drop_last() =~= tags.take(k as int));
            assert(tk1.last() == (s as int, r as int));
            assert(strings_view(more@).take(more@.len() as int) =~= strings_view(more@));
        }
        k = k + 1;
    }
    assert(tags.take(k as int) =~= tags);
    out
}

// ─── Directory scan bookkeeping ──────────────────────────────────────────────

/// The issue recorded for a file that could not be read.
pub open spec fn read_error_issue(file: Seq<char>, error: Seq<char>) -> IssueView {
    issue_view(
        IssueKind::OversizedFile,
        IssueSeverity::Error,
        file,
        0,
        "File Read Error"@,
        "Permission denied or read error: "@ + error,
    )
}

impl ScanResult {
    /// Counts one more scanned file.
    pub fn count_file(&mut self)
        requires
            old(self).files_scanned < usize::MAX,
        ensures
            final(self).files_scanned == old(self).files_scanned + 1,
            final(self).images_found == old(self).images_found,
            final(self).issues@ == old(self).issues@,
    {
        self.files_scanned = self.files_scanned + 1;
    }

    /// Records that the file at `path` could not be read, with the error's
    /// text; the issue names the file relative to the scanned `root` (or by
    /// `path` when it is not under `root`).
    pub fn record_read_error(&mut self, path: &str, root: &str, error: &str)
        ensures
            issues_view(final(self).issues@) == issues_view(old(self).issues@).push(
                read_error_issue(
                    match relative_path(path@, root@) {
                        Some(r) => r,
                        None => path@,
                    },
                    error@,
                ),
            ),
            final(self).files_scanned == old(self).files_scanned,
            final(self).images_found == old(self).images_found,
    {
        let file = match path_strip_prefix(path, root) {
            Some(r) => r,
            None => path.to_owned(),
        };
        let mut msg: Vec<char> = to_chars("Permission denied or read error: ");
        let ev = to_chars(error);
        push_all(&mut msg, &ev);
        let issue = Issue {
            kind: IssueKind::OversizedFile,
            severity: IssueSeverity::Error,
            file,
            line: 0,
            snippet: "File Read Error".to_owned(),
            message: string_of(&msg),
        };
        let ghost before = issues_view(self.issues@);
        self.issues.push(issue);
        assert(issues_view(self.issues@) =~= before.push(issue@));
    }

    /// Records the scan of a file's text (see `record_file`) when scanning it
    /// is defined and the image count does not overflow; tells whether it did.
    /// Otherwise nothing changes.
    pub fn record_file_checked(
        &mut self,
        path: &str,
        content: &str,
        root: &str,
        sizes: &Vec<(String, u64)>,
    ) -> (recorded: bool)
        ensures
            recorded == (scan_defined(content@) && old(self).images_found + img_open_count_from(
                content@,
                0,
            ) <= usize::MAX),
            recorded ==> final(self).images_found == old(self).images_found + img_open_count_from(
                content@,
                0,
            ) && issues_view(final(self).issues@) == issues_view(old(self).issues@) + file_issues(
                path@,
                content@,
                root@,
                sizes@,
            ),
            !recorded ==> final(self).images_found == old(self).images_found && final(self).issues@
                == old(self).issues@,
            final(self).files_scanned == old(self).files_scanned,
    {
        if !scan_file_defined(content) {
            return false;
        }
        let n = count_img_tags(content);
        if n > usize::MAX - self.images_found {
            return false;
        }
        self.record_file(path, content, root, sizes);
        true
    }

    /// Records the scan of a file's text: its `<img` openings are counted and
    /// its issues (`scan_file`) appended.
    pub fn record_file(&mut self, path: &str, content: &str, root: &str, sizes: &Vec<(String, u64)>)
        requires
            scan_defined(content@),
            old(self).images_found + img_open_count_from(content@, 0) <= usize::MAX,
        ensures
            final(self).images_found == old(self).images_found + img_open_count_from(content@, 0),
            final(self).files_scanned == old(self).files_scanned,
            issues_view(final(self).issues@) == issues_view(old(self).issues@) + file_issues(
                path@,
                content@,
                root@,
                sizes@,
            ),
    {
        let n = count_img_tags(content);
        self.images_found = self.images_found + n;
        let found = scan_file(path, content, root, sizes);
        let ghost before = issues_view(self.issues@);
        let mut k: usize = 0;
        let ghost files0 = self.files_scanned;
        let ghost images1 = self.images_found;
        while k < found.len()
            invariant
                k <= found@.len(),
                issues_view(self.issues@) == before + issues_view(found@).take(k as int),
                self.files_scanned == files0,
                self.images_found == images1,
            decreases found@.len() - k,
        {
            let item = found[k].duplicate();
            assert(item@ == issues_view(found@)[k as int]);
            let ghost prev = issues_view(self.issues@);
            self.issues.push(item);
            assert(issues_view(self.issues@) =~= prev.push(item@));
            k = k + 1;
            assert(issues_view(self.issues@) =~= before + issues_view(found@).take(k as int));
        }
        assert(issues_view(found@).take(found@.len() as int) =~= issues_view(found@));
    }
}

} // verus!
