//! The individual checks run on each `<img>` tag.
//!
//! Each check appends at most one issue to the list it is given; what it
//! appends is stated by a spec function whose name ends in `_issues`.

use vstd::prelude::*;
use crate::attrs::{attr_value, get_attr, has_attr, has_attribute};
use crate::paths::{joined_path, parent_path, path_join, path_parent};
use crate::text::{
    contains, contains_str, decimal, decimal_chars, ends_with, ends_with_str, eq_ignore_case,
    eq_ignore_case_str, lowercase_chars, lowercased, push_all, skip_fwd, starts_with,
    starts_with_str, string_of, to_chars,
};
use crate::types::{Issue, IssueKind, issues_view, IssueSeverity, IssueView};

verus! {

/// Referenced images larger than this many bytes are reported.
pub const MAX_IMAGE_SIZE_BYTES: u64 = 204800;

/// The `src` attribute's value, or the empty text when there is none.
pub open spec fn src_of(attrs: Seq<char>) -> Seq<char> {
    match attr_value(attrs, "src"@) {
        Some(v) => v,
        None => seq![],
    }
}

/// An issue about the tag at `line` of `path`.
pub open spec fn issue_view(
    kind: IssueKind,
    severity: IssueSeverity,
    path: Seq<char>,
    line: int,
    snippet: Seq<char>,
    message: Seq<char>,
) -> IssueView {
    IssueView { kind, severity, file: path, line, snippet, message }
}

// ─── Wrong format ────────────────────────────────────────────────────────────

/// The lower-cased source names a legacy raster format.
pub open spec fn is_legacy_format(lower: Seq<char>) -> bool {
    ||| ends_with(lower, ".png"@)
    ||| ends_with(lower, ".jpg"@)
    ||| ends_with(lower, ".jpeg"@)
    ||| ends_with(lower, ".gif"@)
    ||| ends_with(lower, ".bmp"@)
    ||| ends_with(lower, ".tiff"@)
}

/// The lower-cased source names a modern format.
pub open spec fn is_modern_format(lower: Seq<char>) -> bool {
    ends_with(lower, ".webp"@) || ends_with(lower, ".avif"@)
}

/// What `check_wrong_format` reports: a legacy-format source that is not
/// empty, a data URI or a template expression.
pub open spec fn wrong_format_issues(
    path: Seq<char>,
    line: int,
    snippet: Seq<char>,
    attrs: Seq<char>,
) -> Seq<IssueView> {
    let src = src_of(attrs);
    if src.len() == 0 || starts_with(src, "data:"@) || contains(src, "${"@) || starts_with(
        src,
        "{"@,
    ) {
        seq![]
    } else {
        let lower = lowercased(src);
        if is_legacy_format(lower) && !is_modern_format(lower) {
            seq![
                issue_view(
                    IssueKind::WrongFormat,
                    IssueSeverity::Warning,
                    path,
                    line,
                    snippet,
                    "Image '"@ + src + "' should be converted to WebP or AVIF for better compression."@,
                ),
            ]
        } else {
            seq![]
        }
    }
}

fn src_chars(attrs: &str) -> (r: Vec<char>)
    ensures
        r@ == src_of(attrs@),
{
    match get_attr(attrs, "src") {
        Some(v) => to_chars(v.as_str()),
        None => Vec::new(),
    }
}

fn make_issue(
    kind: IssueKind,
    severity: IssueSeverity,
    path: &str,
    line: usize,
    snippet: &str,
    message: String,
) -> (r: Issue)
    ensures
        r@ == issue_view(kind, severity, path@, line as int, snippet@, message@),
{
    Issue {
        kind,
        severity,
        file: path.to_owned(),
        line,
        snippet: snippet.to_owned(),
        message,
    }
}

fn push_issue(issues: &mut Vec<Issue>, issue: Issue)
    ensures
        issues_view(final(issues)@) == issues_view(old(issues)@).push(issue@),
{
    issues.push(issue);
    assert(issues_view(issues@) =~= issues_view(old(issues)@).push(issue@));
}

/// The lower-cased source names a legacy raster format (PNG, JPEG, GIF, BMP,
/// TIFF) and not WebP or AVIF.
pub fn needs_conversion(lower: &Vec<char>) -> (b: bool)
    ensures
        b == (is_legacy_format(lower@) && !is_modern_format(lower@)),
{
    let is_modern = ends_with_str(lower, ".webp") || ends_with_str(lower, ".avif");
    let is_legacy = ends_with_str(lower, ".png") || ends_with_str(lower, ".jpg") || ends_with_str(
        lower,
        ".jpeg",
    ) || ends_with_str(lower, ".gif") || ends_with_str(lower, ".bmp") || ends_with_str(
        lower,
        ".tiff",
    );
    is_legacy && !is_modern
}

/// Appends a warning when the `src` of the tag names a PNG, JPEG, GIF, BMP or
/// TIFF file (by extension, any case); data URIs, template expressions and
/// empty sources are left alone.
pub fn check_wrong_format(
    path: &str,
    line: usize,
    snippet: &str,
    attrs: &str,
    issues: &mut Vec<Issue>,
)
    ensures
        issues_view(final(issues)@) == issues_view(old(issues)@) + wrong_format_issues(
            path@,
            line as int,
            snippet@,
            attrs@,
        ),
{
    let src = src_chars(attrs);
    if src.len() == 0 || starts_with_str(&src, "data:") || contains_str(&src, "${")
        || starts_with_str(&src, "{") {
        assert(issues_view(issues@) =~= issues_view(old(issues)@) + Seq::<IssueView>::empty());
        return ;
    }
    let lower = lowercase_chars(&src);
    if needs_conversion(&lower) {
        let mut msg: Vec<char> = to_chars("Image '");
        push_all(&mut msg, &src);
        let tail = to_chars("' should be converted to WebP or AVIF for better compression.");
        push_all(&mut msg, &tail);
        let issue = make_issue(
            IssueKind::WrongFormat,
            IssueSeverity::Warning,
            path,
            line,
            snippet,
            string_of(&msg),
        );
        push_issue(issues, issue);
        assert(issues_view(issues@) =~= issues_view(old(issues)@) + wrong_format_issues(
            path@,
            line as int,
            snippet@,
            attrs@,
        ));
    } else {
        assert(issues_view(issues@) =~= issues_view(old(issues)@) + Seq::<IssueView>::empty());
    }
}


fn no_issue(issues: &Vec<Issue>)
    ensures
        issues_view(issues@) == issues_view(issues@) + Seq::<IssueView>::empty(),
{
    assert(issues_view(issues@) =~= issues_view(issues@) + Seq::<IssueView>::empty());
}

// ─── Missing dimensions ──────────────────────────────────────────────────────

/// What a tag lacks, from its attribute text and its lower-cased text:
/// `width`, `height` or both (`None` when it has both). When the tag holds a
/// PHP/template opening `<?`, the words `width` / `height` anywhere in it
/// count as present.
pub open spec fn dimension_gap(attrs: Seq<char>, tag_lower: Seq<char>) -> Option<Seq<char>> {
    let has_template = contains(tag_lower, "<?"@);
    let has_width = has_attribute(attrs, "width"@) || (has_template && contains(
        tag_lower,
        "width"@,
    ));
    let has_height = has_attribute(attrs, "height"@) || (has_template && contains(
        tag_lower,
        "height"@,
    ));
    if has_width && has_height {
        None
    } else if !has_width && !has_height {
        Some("width and height"@)
    } else if !has_width {
        Some("width"@)
    } else {
        Some("height"@)
    }
}

/// What `check_missing_dimensions` reports: a tag without `fill` that lacks
/// `width` or `height` (see `dimension_gap`).
pub open spec fn dimension_issues(
    path: Seq<char>,
    line: int,
    snippet: Seq<char>,
    attrs: Seq<char>,
    tag: Seq<char>,
) -> Seq<IssueView> {
    if has_attribute(attrs, "fill"@) {
        seq![]
    } else {
        match dimension_gap(attrs, lowercased(tag)) {
            None => seq![],
            Some(missing) => seq![
                issue_view(
                    IssueKind::MissingWidthHeight,
                    IssueSeverity::Error,
                    path,
                    line,
                    snippet,
                    "Missing '"@ + missing + "' attribute — causes layout shift (CLS)."@,
                ),
            ],
        }
    }
}

/// What the tag lacks of `width` and `height` (see `dimension_gap`), given its
/// attribute text and its lower-cased text.
pub fn missing_dimension(attrs: &str, tag_lower: &Vec<char>) -> (r: Option<String>)
    ensures
        r matches Some(m) ==> dimension_gap(attrs@, tag_lower@) == Some(m@),
        r is None ==> dimension_gap(attrs@, tag_lower@) is None,
{
    let has_template = contains_str(tag_lower, "<?");
    let has_width = has_attr(attrs, "width") || (has_template && contains_str(tag_lower, "width"));
    let has_height = has_attr(attrs, "height") || (has_template && contains_str(tag_lower, "height"));
    if has_width && has_height {
        None
    } else if !has_width && !has_height {
        Some("width and height".to_owned())
    } else if !has_width {
        Some("width".to_owned())
    } else {
        Some("height".to_owned())
    }
}

/// Appends an error when the tag lacks `width` and/or `height` (a Next.js
/// `fill` prop makes both unnecessary); the message names what is missing.
pub fn check_missing_dimensions(
    path: &str,
    line: usize,
    snippet: &str,
    attrs: &str,
    tag: &str,
    issues: &mut Vec<Issue>,
)
    ensures
        issues_view(final(issues)@) == issues_view(old(issues)@) + dimension_issues(
            path@,
            line as int,
            snippet@,
            attrs@,
            tag@,
        ),
{
    if has_attr(attrs, "fill") {
        no_issue(issues);
        return ;
    }
    let tag_v = to_chars(tag);
    let tag_lower = lowercase_chars(&tag_v);
    let missing = match missing_dimension(attrs, &tag_lower) {
        Some(m) => m,
        None => {
            no_issue(issues);
            return ;
        },
    };
    let mut msg: Vec<char> = to_chars("Missing '");
    let mv = to_chars(missing.as_str());
    push_all(&mut msg, &mv);
    let tail = to_chars("' attribute — causes layout shift (CLS).");
    push_all(&mut msg, &tail);
    let issue = make_issue(
        IssueKind::MissingWidthHeight,
        IssueSeverity::Error,
        path,
        line,
        snippet,
        string_of(&msg),
    );
    push_issue(issues, issue);
    assert(issues_view(issues@) =~= issues_view(old(issues)@) + dimension_issues(
        path@,
        line as int,
        snippet@,
        attrs@,
        tag@,
    ));
}

// ─── Missing lazy loading ────────────────────────────────────────────────────

/// What `check_missing_lazy` reports: unless `fetchpriority` is `high` (any
/// ASCII case), a tag whose `loading` is not `lazy` or `eager` (any ASCII case).
pub open spec fn lazy_issues(path: Seq<char>, line: int, snippet: Seq<char>, attrs: Seq<char>) -> Seq<
    IssueView,
> {
    let high = match attr_value(attrs, "fetchpriority"@) {
        Some(v) => eq_ignore_case(v, "high"@),
        None => false,
    };
    let loading = match attr_value(attrs, "loading"@) {
        Some(v) => v,
        None => seq![],
    };
    if high || eq_ignore_case(loading, "lazy"@) || eq_ignore_case(loading, "eager"@) {
        seq![]
    } else {
        seq![
            issue_view(
                IssueKind::MissingLazyLoading,
                IssueSeverity::Warning,
                path,
                line,
                snippet,
                "Missing loading=\"lazy\" — below-the-fold images should be lazy loaded."@,
            ),
        ]
    }
}

/// Appends a warning when the tag has no valid `loading` attribute (`lazy`
/// or `eager`); an LCP image (`fetchpriority="high"`) is left alone.
pub fn check_missing_lazy(
    path: &str,
    line: usize,
    snippet: &str,
    attrs: &str,
    issues: &mut Vec<Issue>,
)
    ensures
        issues_view(final(issues)@) == issues_view(old(issues)@) + lazy_issues(
            path@,
            line as int,
            snippet@,
            attrs@,
        ),
{
    let high = match get_attr(attrs, "fetchpriority") {
        Some(v) => {
            let vv = to_chars(v.as_str());
            eq_ignore_case_str(&vv, "high")
        },
        None => false,
    };
    if high {
        no_issue(issues);
        return ;
    }
    let loading: Vec<char> = match get_attr(attrs, "loading") {
        Some(v) => to_chars(v.as_str()),
        None => Vec::new(),
    };
    let valid = eq_ignore_case_str(&loading, "lazy") || eq_ignore_case_str(&loading, "eager");
    if valid {
        no_issue(issues);
        return ;
    }
    let issue = make_issue(
        IssueKind::MissingLazyLoading,
        IssueSeverity::Warning,
        path,
        line,
        snippet,
        "Missing loading=\"lazy\" — below-the-fold images should be lazy loaded.".to_owned(),
    );
    push_issue(issues, issue);
    assert(issues_view(issues@) =~= issues_view(old(issues)@) + lazy_issues(
        path@,
        line as int,
        snippet@,
        attrs@,
    ));
}

// ─── Missing srcset ──────────────────────────────────────────────────────────

/// What `check_missing_srcset` reports: a tag without `srcset`, unless its
/// source is an SVG (`.svg`, exact case), a data URI or a `{…}` expression.
pub open spec fn srcset_issues(path: Seq<char>, line: int, snippet: Seq<char>, attrs: Seq<char>) -> Seq<
    IssueView,
> {
    let src = src_of(attrs);
    if ends_with(src, ".svg"@) || starts_with(src, "data:"@) || starts_with(src, "{"@) {
        seq![]
    } else if has_attribute(attrs, "srcset"@) || has_attribute(attrs, "srcSet"@) {
        seq![]
    } else {
        seq![
            issue_view(
                IssueKind::MissingSrcset,
                IssueSeverity::Info,
                path,
                line,
                snippet,
                "No srcset defined — add responsive image variants for different viewport sizes."@,
            ),
        ]
    }
}

/// Appends an informational issue when the tag has no `srcset`.
pub fn check_missing_srcset(
    path: &str,
    line: usize,
    snippet: &str,
    attrs: &str,
    issues: &mut Vec<Issue>,
)
    ensures
        issues_view(final(issues)@) == issues_view(old(issues)@) + srcset_issues(
            path@,
            line as int,
            snippet@,
            attrs@,
        ),
{
    let src = src_chars(attrs);
    if ends_with_str(&src, ".svg") || starts_with_str(&src, "data:") || starts_with_str(&src, "{") {
        no_issue(issues);
        return ;
    }
    if has_attr(attrs, "srcset") || has_attr(attrs, "srcSet") {
        no_issue(issues);
        return ;
    }
    let issue = make_issue(
        IssueKind::MissingSrcset,
        IssueSeverity::Info,
        path,
        line,
        snippet,
        "No srcset defined — add responsive image variants for different viewport sizes.".to_owned(),
    );
    push_issue(issues, issue);
    assert(issues_view(issues@) =~= issues_view(old(issues)@) + srcset_issues(
        path@,
        line as int,
        snippet@,
        attrs@,
    ));
}


// ─── Oversized files ─────────────────────────────────────────────────────────

/// What `percent_encoding::percent_decode_str(s).decode_utf8_lossy()` gives.
pub uninterp spec fn percent_decoded(s: Seq<char>) -> Seq<char>;

/// Trusted: `percent_encoding::percent_decode_str` followed by
/// `PercentDecode::decode_utf8_lossy` (every `%XX` with two hex digits becomes
/// the byte it names; the bytes are then read as UTF-8, invalid sequences
/// replaced by U+FFFD). Its result is named `percent_decoded`.
#[verifier::external_body]
fn percent_decode_lossy(s: &str) -> (r: String)
    ensures
        r@ == percent_decoded(s@),
{
    percent_encoding::percent_decode_str(s).decode_utf8_lossy().into_owned()
}

/// The size recorded for the file `p`: the first entry of `sizes` naming it.
pub open spec fn size_lookup_from(sizes: Seq<(String, u64)>, p: Seq<char>, i: int) -> Option<u64>
    decreases sizes.len() - i,
{
    if i < 0 || i >= sizes.len() {
        None
    } else if sizes[i].0@ == p {
        Some(sizes[i].1)
    } else {
        size_lookup_from(sizes, p, i + 1)
    }
}

pub open spec fn size_lookup(sizes: Seq<(String, u64)>, p: Seq<char>) -> Option<u64> {
    size_lookup_from(sizes, p, 0)
}

/// The recorded size of the file `p`, if `sizes` names it.
pub fn lookup_size(sizes: &Vec<(String, u64)>, p: &String) -> (r: Option<u64>)
    ensures
        r == size_lookup(sizes@, p@),
{
    let mut i: usize = 0;
    while i < sizes.len()
        invariant
            i <= sizes@.len(),
            size_lookup(sizes@, p@) == size_lookup_from(sizes@, p@, i as int),
        decreases sizes@.len() - i,
    {
        if sizes[i].0 == *p {
            return Some(sizes[i].1);
        }
        i = i + 1;
    }
    None
}

/// Sources that are not looked up on disk: empty, data URIs, remote URLs and
/// template expressions.
pub open spec fn oversize_skipped(src: Seq<char>) -> bool {
    ||| src.len() == 0
    ||| starts_with(src, "data:"@)
    ||| starts_with(src, "http"@)
    ||| starts_with(src, "{"@)
    ||| contains(src, "${"@)
}

/// The files a decoded source may name, in the order they are tried: the
/// source under `root` (leading `/` removed), then the source next to the
/// scanned file `path` (under `root` when the file has no parent).
pub open spec fn candidates_from(path: Seq<char>, root: Seq<char>, decoded: Seq<char>) -> Seq<
    Seq<char>,
> {
    let rel = decoded.subrange(skip_fwd(decoded, 0, Some('/')), decoded.len() as int);
    let dir = match parent_path(path) {
        Some(p) => p,
        None => root,
    };
    seq![joined_path(root, rel), joined_path(dir, decoded)]
}

/// The files the tag's source may name: the candidates of its percent-decoded
/// value.
pub open spec fn image_candidates(path: Seq<char>, attrs: Seq<char>, root: Seq<char>) -> Seq<
    Seq<char>,
> {
    candidates_from(path, root, percent_decoded(src_of(attrs)))
}

/// The tenths of a KiB in `n` bytes, rounded to nearest, ties to even.
pub open spec fn kib_tenths(n: nat) -> nat {
    let q = (n * 10) / 1024;
    let r = (n * 10) % 1024;
    if r > 512 || (r == 512 && q % 2 == 1) {
        q + 1
    } else {
        q
    }
}

/// `n` bytes in KiB with one decimal, as `{:.1}` prints `n as f64 / 1024.0`.
pub open spec fn kib_text(n: nat) -> Seq<char> {
    let t = kib_tenths(n);
    decimal(t / 10) + seq!['.', ((48 + t % 10) as char)]
}

/// Formats `n` bytes in KiB with one decimal.
pub fn format_kib(n: u64) -> (r: Vec<char>)
    ensures
        r@ == kib_text(n as nat),
{
    let m: u128 = (n as u128) * 10;
    let q: u128 = m / 1024;
    let rem: u128 = m % 1024;
    let t: u128 = if rem > 512 || (rem == 512 && q % 2 == 1) {
        q + 1
    } else {
        q
    };
    assert(t == kib_tenths(n as nat));
    let whole: u64 = (t / 10) as u64;
    let frac: u8 = (t % 10) as u8;
    let mut r = decimal_chars(whole);
    r.push('.');
    r.push((48u8 + frac) as char);
    r
}

/// The first candidate with a recorded size above the limit, and that size.
pub open spec fn first_oversized(c: Seq<Seq<char>>, sizes: Seq<(String, u64)>) -> Option<u64> {
    match size_lookup(sizes, c[0]) {
        Some(n) if n > MAX_IMAGE_SIZE_BYTES => Some(n),
        _ => match size_lookup(sizes, c[1]) {
            Some(n) if n > MAX_IMAGE_SIZE_BYTES => Some(n),
            _ => None,
        },
    }
}

/// What `check_oversized_file` reports, given the recorded file sizes.
pub open spec fn oversized_issues(
    path: Seq<char>,
    line: int,
    snippet: Seq<char>,
    attrs: Seq<char>,
    root: Seq<char>,
    sizes: Seq<(String, u64)>,
) -> Seq<IssueView> {
    if oversize_skipped(src_of(attrs)) {
        seq![]
    } else {
        match first_oversized(image_candidates(path, attrs, root), sizes) {
            Some(n) => seq![
                issue_view(
                    IssueKind::OversizedFile,
                    IssueSeverity::Error,
                    path,
                    line,
                    snippet,
                    "Image file is "@ + kib_text(n as nat)
                        + " KiB — exceeds recommended 200 KiB limit."@,
                ),
            ],
            None => seq![],
        }
    }
}

/// The files to look up for the tag's source: empty when the source is not a
/// local path, else the two candidates of `image_candidates`.
pub open spec fn probe_paths(path: Seq<char>, attrs: Seq<char>, root: Seq<char>) -> Seq<Seq<char>> {
    if oversize_skipped(src_of(attrs)) {
        seq![]
    } else {
        image_candidates(path, attrs, root)
    }
}

/// The views of a vector of texts.
pub open spec fn strings_view(v: Seq<String>) -> Seq<Seq<char>> {
    v.map_values(|s: String| s@)
}

/// The files whose size decides `check_oversized_file` for this tag.
pub fn oversize_probe_paths(path: &str, attrs: &str, root: &str) -> (r: Vec<String>)
    ensures
        strings_view(r@) == probe_paths(path@, attrs@, root@),
{
    let src = src_chars(attrs);
    if src.len() == 0 || starts_with_str(&src, "data:") || starts_with_str(&src, "http")
        || starts_with_str(&src, "{") || contains_str(&src, "${") {
        let r: Vec<String> = Vec::new();
        assert(strings_view(r@) =~= Seq::<Seq<char>>::empty());
        return r;
    }
    let src_s = string_of(&src);
    let decoded_s = percent_decode_lossy(src_s.as_str());
    candidate_files(path, root, decoded_s.as_str())
}

/// The files a decoded source may name (see `candidates_from`).
pub fn candidate_files(path: &str, root: &str, decoded: &str) -> (r: Vec<String>)
    ensures
        strings_view(r@) == candidates_from(path@, root@, decoded@),
{
    let dv = to_chars(decoded);
    let mut k: usize = 0;
    while k < dv.len() && dv[k] == '/'
        invariant
            k <= dv@.len(),
            skip_fwd(dv@, 0, Some('/')) == skip_fwd(dv@, k as int, Some('/')),
        decreases dv@.len() - k,
    {
        k = k + 1;
    }
    let rel = string_of(&crate::text::copy_range(&dv, k, dv.len()));
    let first = path_join(root, rel.as_str());
    let dir = match path_parent(path) {
        Some(p) => p,
        None => root.to_owned(),
    };
    let second = path_join(dir.as_str(), decoded);
    let mut r: Vec<String> = Vec::new();
    r.push(first);
    r.push(second);
    assert(strings_view(r@) =~= candidates_from(path@, root@, decoded@));
    r
}

/// Appends an error when the image the tag's local `src` names is larger than
/// 200 KiB. The file is looked for under `root` and next to the scanned file;
/// `sizes` holds the sizes of the files that exist (see
/// `oversize_probe_paths`). The first candidate over the limit is reported.
pub fn check_oversized_file(
    path: &str,
    line: usize,
    snippet: &str,
    attrs: &str,
    root: &str,
    sizes: &Vec<(String, u64)>,
    issues: &mut Vec<Issue>,
)
    ensures
        issues_view(final(issues)@) == issues_view(old(issues)@) + oversized_issues(
            path@,
            line as int,
            snippet@,
            attrs@,
            root@,
            sizes@,
        ),
{
    let cands = oversize_probe_paths(path, attrs, root);
    assert(strings_view(cands@).len() == cands@.len());
    if cands.len() < 2 {
        no_issue(issues);
        return ;
    }
    let mut found: Option<u64> = None;
    match lookup_size(sizes, &cands[0]) {
        Some(n) => {
            if n > MAX_IMAGE_SIZE_BYTES {
                found = Some(n);
            }
        },
        None => {},
    }
    if found.is_none() {
        match lookup_size(sizes, &cands[1]) {
            Some(n) => {
                if n > MAX_IMAGE_SIZE_BYTES {
                    found = Some(n);
                }
            },
            None => {},
        }
    }
    proof {
        let c = image_candidates(path@, attrs@, root@);
        assert(!oversize_skipped(src_of(attrs@)));
        assert(strings_view(cands@)[0] == cands@[0]@);
        assert(strings_view(cands@)[1] == cands@[1]@);
        assert(cands@[0]@ == c[0]);
        assert(cands@[1]@ == c[1]);
    }
    assert(found == first_oversized(image_candidates(path@, attrs@, root@), sizes@));
    match found {
        Some(n) => {
            let mut msg: Vec<char> = to_chars("Image file is ");
            let kib = format_kib(n);
            push_all(&mut msg, &kib);
            let tail = to_chars(" KiB — exceeds recommended 200 KiB limit.");
            push_all(&mut msg, &tail);
            let issue = make_issue(
                IssueKind::OversizedFile,
                IssueSeverity::Error,
                path,
                line,
                snippet,
                string_of(&msg),
            );
            push_issue(issues, issue);
            assert(issues_view(issues@) =~= issues_view(old(issues)@) + oversized_issues(
                path@,
                line as int,
                snippet@,
                attrs@,
                root@,
                sizes@,
            ));
        },
        None => {
            no_issue(issues);
        },
    }
}

// ─── Laws ────────────────────────────────────────────────────────────────────

/// A lower-cased source needs converting exactly when it ends with `.png`,
/// `.jpg`, `.jpeg`, `.gif`, `.bmp` or `.tiff`, and not with `.webp` or `.avif`.
pub proof fn conversion_is_for_legacy_extensions(l: Seq<char>)
    ensures
        (is_legacy_format(l) && !is_modern_format(l)) == ((ends_with(l, ".png"@) || ends_with(
            l,
            ".jpg"@,
        ) || ends_with(l, ".jpeg"@) || ends_with(l, ".gif"@) || ends_with(l, ".bmp"@) || ends_with(
            l,
            ".tiff"@,
        )) && !ends_with(l, ".webp"@) && !ends_with(l, ".avif"@)),
{
}

/// A tag gets exactly one wrong-format warning, naming its source, when that
/// source is not empty, not a data URI, not a template expression (`${` or a
/// leading `{`), and ends (in lower case) with a legacy raster extension and
/// not a modern one; otherwise it gets none.
pub proof fn wrong_format_flags_legacy_sources(
    path: Seq<char>,
    line: int,
    snippet: Seq<char>,
    attrs: Seq<char>,
)
    ensures
        ({
            let src = src_of(attrs);
            let l = lowercased(src);
            let flagged = src.len() > 0 && !starts_with(src, "data:"@) && !contains(src, "${"@)
                && !starts_with(src, "{"@) && (ends_with(l, ".png"@) || ends_with(l, ".jpg"@)
                || ends_with(l, ".jpeg"@) || ends_with(l, ".gif"@) || ends_with(l, ".bmp"@)
                || ends_with(l, ".tiff"@)) && !ends_with(l, ".webp"@) && !ends_with(l, ".avif"@);
            &&& flagged ==> wrong_format_issues(path, line, snippet, attrs) == seq![
                IssueView {
                    kind: IssueKind::WrongFormat,
                    severity: IssueSeverity::Warning,
                    file: path,
                    line,
                    snippet,
                    message: "Image '"@ + src
                        + "' should be converted to WebP or AVIF for better compression."@,
                },
            ]
            &&& !flagged ==> wrong_format_issues(path, line, snippet, attrs).len() == 0
        }),
{
}

/// A tag with neither `srcset` nor `srcSet` gets exactly one informational
/// issue unless its source ends in `.svg` or starts with `data:` or `{`,
/// whatever scheme the source has; any other tag gets none.
pub proof fn srcset_flags_tags_without_variants(
    path: Seq<char>,
    line: int,
    snippet: Seq<char>,
    attrs: Seq<char>,
)
    ensures
        ({
            let src = src_of(attrs);
            let flagged = !ends_with(src, ".svg"@) && !starts_with(src, "data:"@) && !starts_with(
                src,
                "{"@,
            ) && !has_attribute(attrs, "srcset"@) && !has_attribute(attrs, "srcSet"@);
            &&& flagged ==> srcset_issues(path, line, snippet, attrs) == seq![
                IssueView {
                    kind: IssueKind::MissingSrcset,
                    severity: IssueSeverity::Info,
                    file: path,
                    line,
                    snippet,
                    message: "No srcset defined — add responsive image variants for different viewport sizes."@,
                },
            ]
            &&& !flagged ==> srcset_issues(path, line, snippet, attrs).len() == 0
        }),
{
}

/// The size recorded for `p` is that of the first entry of `sizes` naming
/// it, and there is none when no entry names it.
pub proof fn size_lookup_finds_first_entry(sizes: Seq<(String, u64)>, p: Seq<char>, i: int)
    requires
        0 <= i,
    ensures
        size_lookup_from(sizes, p, i) matches Some(n) ==> exists|k: int|
            i <= k < sizes.len() && #[trigger] sizes[k].0@ == p && sizes[k].1 == n && forall|j: int|
                i <= j < k ==> sizes[j].0@ != p,
        size_lookup_from(sizes, p, i) is None ==> forall|k: int|
            i <= k < sizes.len() ==> #[trigger] sizes[k].0@ != p,
    decreases sizes.len() - i,
{
    if i < sizes.len() && sizes[i].0@ != p {
        size_lookup_finds_first_entry(sizes, p, i + 1);
        if let Some(n) = size_lookup_from(sizes, p, i + 1) {
            let k = choose|k: int|
                i + 1 <= k < sizes.len() && #[trigger] sizes[k].0@ == p && sizes[k].1 == n
                    && forall|j: int| i + 1 <= j < k ==> sizes[j].0@ != p;
            assert(i <= k < sizes.len() && sizes[k].0@ == p && sizes[k].1 == n && forall|j: int|
                i <= j < k ==> sizes[j].0@ != p);
        }
    }
}

/// Every source that is not empty and does not start with `data:`, `http` or
/// `{` nor contain `${` is looked up at two files: its percent-decoded text
/// under `root` (leading `/` removed) and next to the scanned file. The first
/// of them recorded above 204800 bytes gives one oversized-file error with its
/// size in KiB; with none above, or for any other source, there is no issue.
pub proof fn local_sources_are_probed(
    path: Seq<char>,
    line: int,
    snippet: Seq<char>,
    attrs: Seq<char>,
    root: Seq<char>,
    sizes: Seq<(String, u64)>,
)
    ensures
        ({
            let src = src_of(attrs);
            let local = src.len() > 0 && !starts_with(src, "data:"@) && !starts_with(src, "http"@)
                && !starts_with(src, "{"@) && !contains(src, "${"@);
            let decoded = percent_decoded(src);
            let c0 = joined_path(
                root,
                decoded.subrange(skip_fwd(decoded, 0, Some('/')), decoded.len() as int),
            );
            let c1 = joined_path(
                match parent_path(path) {
                    Some(d) => d,
                    None => root,
                },
                decoded,
            );
            let big0 = size_lookup(sizes, c0) matches Some(n) && n > 204800;
            let big1 = size_lookup(sizes, c1) matches Some(n) && n > 204800;
            let report = |n: u64|
                seq![
                    IssueView {
                        kind: IssueKind::OversizedFile,
                        severity: IssueSeverity::Error,
                        file: path,
                        line,
                        snippet,
                        message: "Image file is "@ + kib_text(n as nat)
                            + " KiB — exceeds recommended 200 KiB limit."@,
                    },
                ];
            &&& local ==> probe_paths(path, attrs, root) == seq![c0, c1]
            &&& !local ==> probe_paths(path, attrs, root).len() == 0
            &&& !local ==> oversized_issues(path, line, snippet, attrs, root, sizes).len() == 0
            &&& (local && big0) ==> oversized_issues(path, line, snippet, attrs, root, sizes)
                == report(size_lookup(sizes, c0)->0)
            &&& (local && !big0 && big1) ==> oversized_issues(path, line, snippet, attrs, root, sizes)
                == report(size_lookup(sizes, c1)->0)
            &&& (local && !big0 && !big1) ==> oversized_issues(
                path,
                line,
                snippet,
                attrs,
                root,
                sizes,
            ).len() == 0
        }),
{
}

/// The KiB text's tenths are `n * 10 / 1024` rounded to nearest: never more
/// than half a tenth away.
pub proof fn kib_tenths_round_to_nearest(n: nat)
    ensures
        kib_tenths(n) * 1024 <= n * 10 + 512,
        n * 10 <= kib_tenths(n) * 1024 + 512,
{
    let m = n * 10;
    let q = m / 1024;
    let r = m % 1024;
    assert(q * 1024 + r == m && 0 <= r < 1024) by (nonlinear_arith)
        requires
            q == m / 1024,
            r == m % 1024,
    ;
}

/// A tag without `fill` gets one error naming what it lacks when it has no
/// `width` or no `height` attribute (with a `<?` template in the tag, the word
/// anywhere in the lower-cased tag counts); otherwise it gets none.
pub proof fn dimensions_flag_missing_width_or_height(
    path: Seq<char>,
    line: int,
    snippet: Seq<char>,
    attrs: Seq<char>,
    tag: Seq<char>,
)
    ensures
        ({
            let tl = lowercased(tag);
            let tpl = contains(tl, "<?"@);
            let w = has_attribute(attrs, "width"@) || (tpl && contains(tl, "width"@));
            let h = has_attribute(attrs, "height"@) || (tpl && contains(tl, "height"@));
            let issue = |m: Seq<char>|
                seq![
                    IssueView {
                        kind: IssueKind::MissingWidthHeight,
                        severity: IssueSeverity::Error,
                        file: path,
                        line,
                        snippet,
                        message: "Missing '"@ + m + "' attribute — causes layout shift (CLS)."@,
                    },
                ];
            &&& has_attribute(attrs, "fill"@) ==> dimension_issues(
                path,
                line,
                snippet,
                attrs,
                tag,
            ).len() == 0
            &&& !has_attribute(attrs, "fill"@) && w && h ==> dimension_issues(
                path,
                line,
                snippet,
                attrs,
                tag,
            ).len() == 0
            &&& !has_attribute(attrs, "fill"@) && !w && !h ==> dimension_issues(
                path,
                line,
                snippet,
                attrs,
                tag,
            ) == issue("width and height"@)
            &&& !has_attribute(attrs, "fill"@) && !w && h ==> dimension_issues(
                path,
                line,
                snippet,
                attrs,
                tag,
            ) == issue("width"@)
            &&& !has_attribute(attrs, "fill"@) && w && !h ==> dimension_issues(
                path,
                line,
                snippet,
                attrs,
                tag,
            ) == issue("height"@)
        }),
{
}

/// A tag gets one lazy-loading warning exactly when its `fetchpriority` is
/// not `high` and its `loading` is neither `lazy` nor `eager` (values compared
/// ignoring ASCII case, a missing attribute counting as an empty value).
pub proof fn lazy_flags_tags_without_loading(
    path: Seq<char>,
    line: int,
    snippet: Seq<char>,
    attrs: Seq<char>,
)
    ensures
        ({
            let fp = match attr_value(attrs, "fetchpriority"@) {
                Some(v) => v,
                None => seq![],
            };
            let ld = match attr_value(attrs, "loading"@) {
                Some(v) => v,
                None => seq![],
            };
            let flagged = !(attr_value(attrs, "fetchpriority"@) is Some && eq_ignore_case(
                fp,
                "high"@,
            )) && !eq_ignore_case(ld, "lazy"@) && !eq_ignore_case(ld, "eager"@);
            &&& flagged ==> lazy_issues(path, line, snippet, attrs) == seq![
                IssueView {
                    kind: IssueKind::MissingLazyLoading,
                    severity: IssueSeverity::Warning,
                    file: path,
                    line,
                    snippet,
                    message: "Missing loading=\"lazy\" — below-the-fold images should be lazy loaded."@,
                },
            ]
            &&& !flagged ==> lazy_issues(path, line, snippet, attrs).len() == 0
        }),
{
}

} // verus!
