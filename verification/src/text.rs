//! Character-level text utilities shared by the scanner, patcher and prompt builder.
//!
//! All text is modelled as `Seq<char>` (the view of `str` and `String`).

use vstd::prelude::*;

verus! {

broadcast use vstd::string::group_string_axioms;

// ─── Character classes ───────────────────────────────────────────────────────

/// The Unicode `White_Space` property: what `char::is_whitespace` and the
/// regex class `\s` accept.
pub open spec fn is_ws(c: char) -> bool {
    ||| ('\u{9}' <= c && c <= '\u{d}')
    ||| c == ' '
    ||| c == '\u{85}'
    ||| c == '\u{a0}'
    ||| c == '\u{1680}'
    ||| ('\u{2000}' <= c && c <= '\u{200a}')
    ||| c == '\u{2028}'
    ||| c == '\u{2029}'
    ||| c == '\u{202f}'
    ||| c == '\u{205f}'
    ||| c == '\u{3000}'
}

/// Executable `is_ws`.
pub fn is_whitespace(c: char) -> (b: bool)
    ensures
        b == is_ws(c),
{
    ('\u{9}' <= c && c <= '\u{d}') || c == ' ' || c == '\u{85}' || c == '\u{a0}' || c == '\u{1680}'
        || ('\u{2000}' <= c && c <= '\u{200a}') || c == '\u{2028}' || c == '\u{2029}' || c
        == '\u{202f}' || c == '\u{205f}' || c == '\u{3000}'
}

/// Case-insensitive equality of a text character `c` with a pattern character
/// `p`, as a case-insensitive regex compares them: an ASCII letter matches both
/// of its cases, and also KELVIN SIGN (for `k`) or LATIN SMALL LETTER LONG S
/// (for `s`), the only other characters whose simple case folding is an ASCII
/// letter. Any other pattern character matches only itself.
pub open spec fn ci_char(c: char, p: char) -> bool {
    let pu = p as u32;
    let cu = c as u32;
    let pl: u32 = if 65 <= pu && pu <= 90 { (pu + 32) as u32 } else { pu };
    if 97 <= pl && pl <= 122 {
        cu == pl || cu + 32 == pl || (pl == 115 && cu == 0x17f) || (pl == 107 && cu == 0x212a)
    } else {
        cu == pu
    }
}

/// Executable `ci_char`.
pub fn ci_char_eq(c: char, p: char) -> (b: bool)
    ensures
        b == ci_char(c, p),
{
    let pu = p as u32;
    let cu = c as u32;
    let pl: u32 = if 65 <= pu && pu <= 90 { pu + 32 } else { pu };
    if 97 <= pl && pl <= 122 {
        cu == pl || cu + 32 == pl || (pl == 115 && cu == 0x17f) || (pl == 107 && cu == 0x212a)
    } else {
        cu == pu
    }
}

/// What `regex::Regex::new(class)` accepts when matched against the
/// one-character text `c` (`false` when `class` does not compile).
pub uninterp spec fn in_regex_class(class: Seq<char>, c: char) -> bool;

/// Trusted: builds `regex::Regex::new(class)` and reports `Regex::is_match` on
/// the one-character text made of `c`; `false` when the pattern is refused.
/// Its result is named `in_regex_class`; nothing more is claimed of it.
#[verifier::external_body]
fn regex_class_contains(class: &str, c: char) -> (b: bool)
    ensures
        b == in_regex_class(class@, c),
{
    let mut buf = [0u8; 4];
    match regex::Regex::new(class) {
        Ok(re) => re.is_match(c.encode_utf8(&mut buf)),
        Err(_) => false,
    }
}

/// A Unicode word character (the regex class `\w`).
pub open spec fn is_word_char(c: char) -> bool {
    in_regex_class("\\w"@, c)
}

/// A Unicode decimal digit (the regex class `\d`).
pub open spec fn is_digit_char(c: char) -> bool {
    in_regex_class("\\d"@, c)
}

/// Executable `is_word_char`.
pub fn word_char(c: char) -> (b: bool)
    ensures
        b == is_word_char(c),
{
    regex_class_contains("\\w", c)
}

/// Executable `is_digit_char`.
pub fn digit_char(c: char) -> (b: bool)
    ensures
        b == is_digit_char(c),
{
    regex_class_contains("\\d", c)
}

// ─── Conversions ─────────────────────────────────────────────────────────────

/// Copies the characters of `s` into a vector.
pub fn to_chars(s: &str) -> (v: Vec<char>)
    ensures
        v@ == s@,
{
    let mut v: Vec<char> = Vec::new();
    let it = s.chars();
    for c in iter: it
        invariant
            iter.seq() == s@,
            v@ == iter.seq().take(iter.index() as int),
    {
        v.push(c);
    }
    v
}

/// Trusted: `String::push`, which appends one character.
#[verifier::external_body]
pub(crate) fn push_char(s: &mut String, c: char)
    ensures
        final(s)@ == old(s)@.push(c),
{
    s.push(c);
}

/// The view of an optional text.
pub open spec fn opt_text(o: Option<String>) -> Option<Seq<char>> {
    match o {
        Some(s) => Some(s@),
        None => None,
    }
}

/// A copy of the text `s`.
pub fn copy_text(s: &String) -> (r: String)
    ensures
        r@ == s@,
{
    string_of(&to_chars(s.as_str()))
}

/// Builds a `String` from the characters `v[from..to]`.
pub fn string_of_range(v: &Vec<char>, from: usize, to: usize) -> (s: String)
    requires
        from <= to <= v@.len(),
    ensures
        s@ == v@.subrange(from as int, to as int),
{
    let mut s = String::new();
    let mut i = from;
    while i < to
        invariant
            from <= i <= to <= v@.len(),
            s@ == v@.subrange(from as int, i as int),
        decreases to - i,
    {
        push_char(&mut s, v[i]);
        i = i + 1;
        assert(s@ =~= v@.subrange(from as int, i as int));
    }
    s
}

/// Builds a `String` from all characters of `v`.
pub fn string_of(v: &Vec<char>) -> (s: String)
    ensures
        s@ == v@,
{
    let s = string_of_range(v, 0, v.len());
    assert(v@.subrange(0, v@.len() as int) =~= v@);
    s
}

/// The result of `str::to_lowercase`: Unicode lower-case mapping.
pub uninterp spec fn lowercased(s: Seq<char>) -> Seq<char>;

/// Trusted: `str::to_lowercase`. Its result is named `lowercased`.
#[verifier::external_body]
fn str_to_lowercase(s: &str) -> (r: String)
    ensures
        r@ == lowercased(s@),
{
    s.to_lowercase()
}

/// The Unicode lower-case form of the characters `v`.
pub fn lowercase_chars(v: &Vec<char>) -> (r: Vec<char>)
    ensures
        r@ == lowercased(v@),
{
    let s = string_of(v);
    let l = str_to_lowercase(s.as_str());
    to_chars(l.as_str())
}


// ─── Searching ───────────────────────────────────────────────────────────────

/// `p` occurs in `t` starting at index `i`.
pub open spec fn has_prefix_at(t: Seq<char>, i: int, p: Seq<char>) -> bool {
    0 <= i && i + p.len() <= t.len() && t.subrange(i, i + p.len()) =~= p
}

pub open spec fn starts_with(t: Seq<char>, p: Seq<char>) -> bool {
    has_prefix_at(t, 0, p)
}

pub open spec fn ends_with(t: Seq<char>, p: Seq<char>) -> bool {
    p.len() <= t.len() && has_prefix_at(t, t.len() - p.len(), p)
}

/// The first index `>= i` at which `p` occurs in `t` (what `str::find` reports,
/// counted in characters).
pub open spec fn find_from(t: Seq<char>, p: Seq<char>, i: int) -> Option<int>
    decreases t.len() - i,
{
    if i < 0 || i + p.len() > t.len() {
        None
    } else if has_prefix_at(t, i, p) {
        Some(i)
    } else {
        find_from(t, p, i + 1)
    }
}

pub open spec fn contains(t: Seq<char>, p: Seq<char>) -> bool {
    find_from(t, p, 0) is Some
}

/// The first index `>= i` holding the character `c`.
pub open spec fn next_index_of(t: Seq<char>, i: int, c: char) -> Option<int>
    decreases t.len() - i,
{
    if i < 0 || i >= t.len() {
        None
    } else if t[i] == c {
        Some(i)
    } else {
        next_index_of(t, i + 1, c)
    }
}

pub proof fn lemma_next_index_of(t: Seq<char>, i: int, c: char)
    requires
        0 <= i,
    ensures
        next_index_of(t, i, c) matches Some(j) ==> i <= j < t.len() && t[j] == c && (forall|k: int|
            i <= k < j ==> t[k] != c),
        next_index_of(t, i, c) is None ==> forall|k: int| i <= k < t.len() ==> t[k] != c,
    decreases t.len() - i,
{
    if i < t.len() && t[i] != c {
        lemma_next_index_of(t, i + 1, c);
    }
}

pub proof fn lemma_find_from(t: Seq<char>, p: Seq<char>, i: int)
    requires
        0 <= i,
    ensures
        find_from(t, p, i) matches Some(j) ==> i <= j && j + p.len() <= t.len() && has_prefix_at(
            t,
            j,
            p,
        ) && (forall|k: int| i <= k < j ==> !has_prefix_at(t, k, p)),
        find_from(t, p, i) is None ==> forall|k: int| i <= k ==> !has_prefix_at(t, k, p),
    decreases t.len() - i,
{
    if i + p.len() <= t.len() && !has_prefix_at(t, i, p) {
        lemma_find_from(t, p, i + 1);
    }
}

/// `p` occurs in `t` exactly when it occurs at some index.
pub proof fn lemma_contains_iff(t: Seq<char>, p: Seq<char>)
    ensures
        contains(t, p) <==> exists|j: int| #[trigger] has_prefix_at(t, j, p),
{
    lemma_find_from(t, p, 0);
}

/// A text without newlines that ends a line: it occurs in `x + y`, where `x`
/// is empty or ends with a newline, exactly when it occurs in `x` or in `y`.
pub proof fn lemma_contains_after_line(x: Seq<char>, y: Seq<char>, p: Seq<char>)
    requires
        p.len() > 0,
        forall|k: int| 0 <= k < p.len() ==> p[k] != '\n',
        x.len() == 0 || x.last() == '\n',
    ensures
        contains(x + y, p) <==> (contains(x, p) || contains(y, p)),
{
    let t = x + y;
    lemma_contains_iff(t, p);
    lemma_contains_iff(x, p);
    lemma_contains_iff(y, p);
    if contains(t, p) {
        let j = choose|j: int| #[trigger] has_prefix_at(t, j, p);
        if j + p.len() <= x.len() {
            assert(x.subrange(j, j + p.len()) =~= t.subrange(j, j + p.len()));
            assert(has_prefix_at(x, j, p));
        } else if j >= x.len() {
            assert(y.subrange(j - x.len(), j - x.len() + p.len()) =~= t.subrange(j, j + p.len()));
            assert(has_prefix_at(y, j - x.len(), p));
        } else {
            let k = x.len() - 1 - j;
            assert(t.subrange(j, j + p.len())[k] == t[x.len() - 1]);
            assert(t[x.len() - 1] == '\n');
            assert(p[k] != '\n');
        }
    }
    if contains(x, p) {
        let j = choose|j: int| #[trigger] has_prefix_at(x, j, p);
        assert(t.subrange(j, j + p.len()) =~= x.subrange(j, j + p.len()));
        assert(has_prefix_at(t, j, p));
    }
    if contains(y, p) {
        let j = choose|j: int| #[trigger] has_prefix_at(y, j, p);
        assert(t.subrange(j + x.len(), j + x.len() + p.len()) =~= y.subrange(j, j + p.len()));
        assert(has_prefix_at(t, j + x.len(), p));
    }
}

/// A text without newlines occurs in `y` followed by a newline exactly when
/// it occurs in `y`.
pub proof fn lemma_contains_before_newline(y: Seq<char>, p: Seq<char>)
    requires
        p.len() > 0,
        forall|k: int| 0 <= k < p.len() ==> p[k] != '\n',
    ensures
        contains(y + seq!['\n'], p) <==> contains(y, p),
{
    let t = y + seq!['\n'];
    lemma_contains_iff(t, p);
    lemma_contains_iff(y, p);
    if contains(t, p) {
        let j = choose|j: int| #[trigger] has_prefix_at(t, j, p);
        if j + p.len() <= y.len() {
            assert(y.subrange(j, j + p.len()) =~= t.subrange(j, j + p.len()));
            assert(has_prefix_at(y, j, p));
        } else {
            let k = y.len() - j;
            assert(t.subrange(j, j + p.len())[k] == t[y.len() as int]);
            assert(p[k] != '\n');
        }
    }
    if contains(y, p) {
        let j = choose|j: int| #[trigger] has_prefix_at(y, j, p);
        assert(t.subrange(j, j + p.len()) =~= y.subrange(j, j + p.len()));
        assert(has_prefix_at(t, j, p));
    }
}

/// `p` occurs in `t` at index `i`.
pub fn matches_at(t: &Vec<char>, i: usize, p: &Vec<char>) -> (b: bool)
    ensures
        b == has_prefix_at(t@, i as int, p@),
{
    if i > t.len() || p.len() > t.len() - i {
        return false;
    }
    let mut k: usize = 0;
    while k < p.len()
        invariant
            i + p@.len() <= t@.len(),
            t@.len() <= usize::MAX,
            k <= p@.len(),
            forall|j: int| 0 <= j < k ==> t@[i + j] == p@[j],
        decreases p@.len() - k,
    {
        if t[i + k] != p[k] {
            assert(t@.subrange(i as int, i + p@.len())[k as int] != p@[k as int]);
            return false;
        }
        k = k + 1;
    }
    assert(t@.subrange(i as int, i + p@.len()) =~= p@);
    true
}

/// The first index `>= from` at which `p` occurs in `t`.
pub fn find_chars(t: &Vec<char>, p: &Vec<char>, from: usize) -> (r: Option<usize>)
    ensures
        r == (match find_from(t@, p@, from as int) {
            Some(j) => Some(j as usize),
            None => None::<usize>,
        }),
        r matches Some(j) ==> j + p@.len() <= t@.len() && find_from(t@, p@, from as int) == Some(
            j as int,
        ),
        r is None ==> find_from(t@, p@, from as int) is None,
{
    let mut i = from;
    while i <= t.len() && p.len() <= t.len() - i
        invariant
            from <= i,
            find_from(t@, p@, from as int) == find_from(t@, p@, i as int),
        decreases t@.len() + 1 - i,
    {
        if matches_at(t, i, p) {
            return Some(i);
        }
        i = i + 1;
    }
    None
}

/// `p` occurs somewhere in `t`.
pub fn contains_chars(t: &Vec<char>, p: &Vec<char>) -> (b: bool)
    ensures
        b == contains(t@, p@),
{
    find_chars(t, p, 0).is_some()
}

/// `t` contains the text `p`.
pub fn contains_str(t: &Vec<char>, p: &str) -> (b: bool)
    ensures
        b == contains(t@, p@),
{
    let pv = to_chars(p);
    contains_chars(t, &pv)
}

/// `t` starts with the text `p`.
pub fn starts_with_str(t: &Vec<char>, p: &str) -> (b: bool)
    ensures
        b == starts_with(t@, p@),
{
    let pv = to_chars(p);
    matches_at(t, 0, &pv)
}

/// `t` ends with the text `p`.
pub fn ends_with_str(t: &Vec<char>, p: &str) -> (b: bool)
    ensures
        b == ends_with(t@, p@),
{
    let pv = to_chars(p);
    if pv.len() > t.len() {
        false
    } else {
        matches_at(t, t.len() - pv.len(), &pv)
    }
}

/// `t` is exactly the text `p`.
pub fn equals_str(t: &Vec<char>, p: &str) -> (b: bool)
    ensures
        b == (t@ == p@),
{
    let pv = to_chars(p);
    if t.len() != pv.len() {
        return false;
    }
    let b = matches_at(t, 0, &pv);
    assert(t@.subrange(0, pv@.len() as int) =~= t@);
    b
}

/// The first index `>= i` holding `c`.
pub fn index_of_char(t: &Vec<char>, i: usize, c: char) -> (r: Option<usize>)
    ensures
        r == (match next_index_of(t@, i as int, c) {
            Some(j) => Some(j as usize),
            None => None::<usize>,
        }),
{
    let mut k = i;
    while k < t.len()
        invariant
            i <= k,
            next_index_of(t@, i as int, c) == next_index_of(t@, k as int, c),
        decreases t@.len() - k,
    {
        if t[k] == c {
            return Some(k);
        }
        k = k + 1;
    }
    None
}


// ─── Trimming ────────────────────────────────────────────────────────────────

/// Whether `c` is removed by a trim: white space when `ch` is `None`, else the
/// character `ch` itself.
pub open spec fn trim_pred(c: char, ch: Option<char>) -> bool {
    match ch {
        None => is_ws(c),
        Some(x) => c == x,
    }
}

/// The first index `>= i` whose character is not trimmed (`t.len()` when
/// there is none).
pub open spec fn skip_fwd(t: Seq<char>, i: int, ch: Option<char>) -> int
    decreases t.len() - i,
{
    if i < 0 {
        0
    } else if i >= t.len() {
        t.len() as int
    } else if trim_pred(t[i], ch) {
        skip_fwd(t, i + 1, ch)
    } else {
        i
    }
}

/// The end of `t[lo..j]` once the trimmed characters at its end are removed.
pub open spec fn skip_back(t: Seq<char>, lo: int, j: int, ch: Option<char>) -> int
    decreases j - lo,
{
    if j <= lo {
        lo
    } else if trim_pred(t[j - 1], ch) {
        skip_back(t, lo, j - 1, ch)
    } else {
        j
    }
}

/// `t` without the trimmed characters at both ends.
pub open spec fn trim_by(t: Seq<char>, ch: Option<char>) -> Seq<char> {
    let s = skip_fwd(t, 0, ch);
    t.subrange(s, skip_back(t, s, t.len() as int, ch))
}

/// `str::trim`: removes Unicode white space at both ends.
pub open spec fn trimmed(t: Seq<char>) -> Seq<char> {
    trim_by(t, None)
}

/// `str::trim_matches(c)` for a single character `c`.
pub open spec fn trimmed_char(t: Seq<char>, c: char) -> Seq<char> {
    trim_by(t, Some(c))
}

fn is_trimmed(c: char, ch: Option<char>) -> (b: bool)
    ensures
        b == trim_pred(c, ch),
{
    match ch {
        None => is_whitespace(c),
        Some(x) => c == x,
    }
}

fn trim_with(t: &Vec<char>, ch: Option<char>) -> (r: Vec<char>)
    ensures
        r@ == trim_by(t@, ch),
{
    let mut s: usize = 0;
    while s < t.len() && is_trimmed(t[s], ch)
        invariant
            s <= t@.len(),
            skip_fwd(t@, 0, ch) == skip_fwd(t@, s as int, ch),
        decreases t@.len() - s,
    {
        s = s + 1;
    }
    let mut e: usize = t.len();
    while e > s && is_trimmed(t[e - 1], ch)
        invariant
            s <= e <= t@.len(),
            skip_fwd(t@, 0, ch) == s,
            skip_back(t@, s as int, t@.len() as int, ch) == skip_back(t@, s as int, e as int, ch),
        decreases e - s,
    {
        e = e - 1;
    }
    copy_range(t, s, e)
}

/// Removes Unicode white space at both ends of `t` (`str::trim`).
pub fn trim_chars(t: &Vec<char>) -> (r: Vec<char>)
    ensures
        r@ == trimmed(t@),
{
    trim_with(t, None)
}

/// Removes every copy of `c` at both ends of `t` (`str::trim_matches`).
pub fn trim_char(t: &Vec<char>, c: char) -> (r: Vec<char>)
    ensures
        r@ == trimmed_char(t@, c),
{
    trim_with(t, Some(c))
}

// ─── Lines ───────────────────────────────────────────────────────────────────

/// One trailing carriage return removed, as `str::lines` does after a `\n`.
pub open spec fn strip_cr(l: Seq<char>) -> Seq<char> {
    if l.len() > 0 && l.last() == '\r' {
        l.drop_last()
    } else {
        l
    }
}

/// The lines of `t[i..]` as `str::lines` yields them: split after each `\n`,
/// the `\n` and a `\r` just before it removed; a final line without `\n` kept
/// as it is; no empty line after a final `\n`.
pub open spec fn lines_from(t: Seq<char>, i: int) -> Seq<Seq<char>>
    decreases t.len() - i,
{
    if i < 0 || i >= t.len() {
        seq![]
    } else {
        match next_index_of(t, i, '\n') {
            Some(k) => {
                if i <= k < t.len() {
                    seq![strip_cr(t.subrange(i, k))] + lines_from(t, k + 1)
                } else {
                    seq![]
                }
            },
            None => seq![t.subrange(i, t.len() as int)],
        }
    }
}

/// `str::lines` of `t`.
pub open spec fn lines_of(t: Seq<char>) -> Seq<Seq<char>> {
    lines_from(t, 0)
}

/// The spec view of a vector of lines.
pub open spec fn lines_view(v: Seq<Vec<char>>) -> Seq<Seq<char>> {
    v.map_values(|l: Vec<char>| l@)
}

/// Splits `t` into lines exactly as `str::lines` does.
pub fn split_lines(t: &Vec<char>) -> (r: Vec<Vec<char>>)
    ensures
        lines_view(r@) == lines_of(t@),
{
    let mut out: Vec<Vec<char>> = Vec::new();
    let mut i: usize = 0;
    while i < t.len()
        invariant
            i <= t@.len(),
            lines_view(out@) + lines_from(t@, i as int) == lines_of(t@),
        decreases t@.len() - i,
    {
        let k = index_of_char(t, i, '\n');
        proof {
            lemma_next_index_of(t@, i as int, '\n');
        }
        match k {
            Some(k) => {
                let mut end = k;
                if end > i && t[end - 1] == '\r' {
                    end = end - 1;
                }
                let line = copy_range(t, i, end);
                assert(line@ =~= strip_cr(t@.subrange(i as int, k as int)));
                let ghost before = lines_view(out@);
                out.push(line);
                assert(lines_view(out@) =~= before.push(line@));
                assert(lines_from(t@, i as int) =~= seq![line@] + lines_from(t@, k + 1));
                assert(lines_view(out@) + lines_from(t@, k + 1) =~= before + lines_from(
                    t@,
                    i as int,
                ));
                i = k + 1;
            },
            None => {
                let line = copy_range(t, i, t.len());
                let ghost before = lines_view(out@);
                out.push(line);
                assert(lines_view(out@) =~= before.push(line@));
                assert(lines_from(t@, i as int) =~= seq![line@]);
                assert(lines_from(t@, t@.len() as int) =~= Seq::<Seq<char>>::empty());
                assert(lines_view(out@) + lines_from(t@, t@.len() as int) =~= before
                    + lines_from(t@, i as int));
                i = t.len();
            },
        }
    }
    assert(lines_from(t@, i as int) =~= Seq::<Seq<char>>::empty());
    assert(lines_view(out@) + Seq::<Seq<char>>::empty() =~= lines_view(out@));
    out
}

/// A copy of `t[from..to]`.
pub fn copy_range(t: &Vec<char>, from: usize, to: usize) -> (r: Vec<char>)
    requires
        from <= to <= t@.len(),
    ensures
        r@ == t@.subrange(from as int, to as int),
{
    let mut r: Vec<char> = Vec::new();
    let mut k = from;
    while k < to
        invariant
            from <= k <= to <= t@.len(),
            r@ == t@.subrange(from as int, k as int),
        decreases to - k,
    {
        r.push(t[k]);
        k = k + 1;
        assert(r@ =~= t@.subrange(from as int, k as int));
    }
    r
}

/// Appends the characters of `p` to `out`.
pub fn push_all(out: &mut Vec<char>, p: &Vec<char>)
    ensures
        final(out)@ == old(out)@ + p@,
{
    let mut k: usize = 0;
    while k < p.len()
        invariant
            k <= p@.len(),
            out@ == old(out)@ + p@.subrange(0, k as int),
        decreases p@.len() - k,
    {
        out.push(p[k]);
        k = k + 1;
        assert(out@ =~= old(out)@ + p@.subrange(0, k as int));
    }
    assert(p@.subrange(0, p@.len() as int) =~= p@);
}

/// Appends the text `p` to `out`.
pub fn push_str(out: &mut Vec<char>, p: &str)
    ensures
        final(out)@ == old(out)@ + p@,
{
    let pv = to_chars(p);
    push_all(out, &pv);
}

// ─── Numbers ─────────────────────────────────────────────────────────────────

/// The decimal digit character for `d < 10`.
pub open spec fn digit_of(d: nat) -> char {
    (48 + d) as char
}

/// The decimal representation of `n`, as `to_string` prints it.
pub open spec fn decimal(n: nat) -> Seq<char>
    decreases n,
{
    if n < 10 {
        seq![digit_of(n)]
    } else {
        decimal(n / 10).push(digit_of(n % 10))
    }
}

/// The decimal digits of `n`.
pub fn decimal_chars(n: u64) -> (r: Vec<char>)
    ensures
        r@ == decimal(n as nat),
    decreases n,
{
    let d: u8 = (n % 10) as u8;
    let c = (48u8 + d) as char;
    if n < 10 {
        let mut r: Vec<char> = Vec::new();
        r.push(c);
        assert(r@ =~= seq![digit_of(n as nat)]);
        r
    } else {
        let mut r = decimal_chars(n / 10);
        r.push(c);
        r
    }
}


// ─── Regex-style primitives ──────────────────────────────────────────────────

/// The regex assertion `\b` at position `p` of `t`: exactly one of the
/// characters around `p` is a word character.
pub open spec fn word_boundary(t: Seq<char>, p: int) -> bool {
    (0 < p <= t.len() && is_word_char(t[p - 1])) != (0 <= p < t.len() && is_word_char(t[p]))
}

/// Executable `word_boundary`.
pub fn at_word_boundary(t: &Vec<char>, p: usize) -> (b: bool)
    ensures
        b == word_boundary(t@, p as int),
{
    let before = p > 0 && p <= t.len() && word_char(t[p - 1]);
    let after = p < t.len() && word_char(t[p]);
    before != after
}

/// The case-insensitive pattern `w` matches `t` at index `i`.
pub open spec fn ci_match_at(t: Seq<char>, i: int, w: Seq<char>) -> bool {
    &&& 0 <= i
    &&& i + w.len() <= t.len()
    &&& forall|k: int| 0 <= k < w.len() ==> #[trigger] ci_char(t[i + k], w[k])
}

/// Executable `ci_match_at`.
pub fn ci_matches_at(t: &Vec<char>, i: usize, w: &Vec<char>) -> (b: bool)
    ensures
        b == ci_match_at(t@, i as int, w@),
{
    if i > t.len() || w.len() > t.len() - i {
        return false;
    }
    let mut k: usize = 0;
    while k < w.len()
        invariant
            i + w@.len() <= t@.len(),
            t@.len() <= usize::MAX,
            k <= w@.len(),
            forall|j: int| 0 <= j < k ==> #[trigger] ci_char(t@[i + j], w@[j]),
        decreases w@.len() - k,
    {
        if !ci_char_eq(t[i + k], w[k]) {
            return false;
        }
        k = k + 1;
    }
    true
}

/// The first index `>= i` that is not white space (`t.len()` if none).
pub fn skip_ws_from(t: &Vec<char>, i: usize) -> (r: usize)
    requires
        i <= t@.len(),
    ensures
        r == skip_fwd(t@, i as int, None),
        i <= r <= t@.len(),
{
    let mut s = i;
    while s < t.len() && is_whitespace(t[s])
        invariant
            i <= s <= t@.len(),
            skip_fwd(t@, i as int, None) == skip_fwd(t@, s as int, None),
        decreases t@.len() - s,
    {
        s = s + 1;
    }
    s
}


// ─── ASCII case ──────────────────────────────────────────────────────────────

/// `char::to_ascii_lowercase`.
pub open spec fn ascii_lower(c: char) -> char {
    if 'A' <= c && c <= 'Z' {
        ((c as u32) + 32) as char
    } else {
        c
    }
}

/// `str::eq_ignore_ascii_case`: equal once ASCII letters are lower-cased.
pub open spec fn eq_ignore_case(a: Seq<char>, b: Seq<char>) -> bool {
    &&& a.len() == b.len()
    &&& forall|k: int| 0 <= k < a.len() ==> #[trigger] ascii_lower(a[k]) == ascii_lower(b[k])
}

fn ascii_lower_eq(a: char, b: char) -> (r: bool)
    ensures
        r == (ascii_lower(a) == ascii_lower(b)),
{
    let au = a as u32;
    let bu = b as u32;
    let al: u32 = if 65 <= au && au <= 90 { au + 32 } else { au };
    let bl: u32 = if 65 <= bu && bu <= 90 { bu + 32 } else { bu };
    proof {
        if 'A' <= a && a <= 'Z' {
            assert(ascii_lower(a) as u32 == al);
        }
        if 'A' <= b && b <= 'Z' {
            assert(ascii_lower(b) as u32 == bl);
        }
    }
    al == bl
}

/// `t` equals the text `p` up to ASCII case.
pub fn eq_ignore_case_str(t: &Vec<char>, p: &str) -> (b: bool)
    ensures
        b == eq_ignore_case(t@, p@),
{
    let pv = to_chars(p);
    if t.len() != pv.len() {
        return false;
    }
    let mut k: usize = 0;
    while k < t.len()
        invariant
            t@.len() == pv@.len(),
            pv@ == p@,
            k <= t@.len(),
            forall|j: int| 0 <= j < k ==> #[trigger] ascii_lower(t@[j]) == ascii_lower(pv@[j]),
        decreases t@.len() - k,
    {
        if !ascii_lower_eq(t[k], pv[k]) {
            return false;
        }
        k = k + 1;
    }
    true
}

} // verus!
