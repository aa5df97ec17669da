//! Issues reported by the scanner.

use vstd::prelude::*;

verus! {

/// How serious an issue is.
#[derive(Debug, Clone, Copy, PartialEq, Eq, Structural)]
pub enum IssueSeverity {
    Error,
    Warning,
    Info,
}

/// What is wrong with an image.
#[derive(Debug, Clone, Copy, PartialEq, Eq, Structural)]
pub enum IssueKind {
    WrongFormat,
    MissingWidthHeight,
    MissingLazyLoading,
    OversizedFile,
    MissingSrcset,
    MissingAlt,
}

/// The text shown for a severity.
pub open spec fn severity_text(s: IssueSeverity) -> Seq<char> {
    match s {
        IssueSeverity::Error => "ERROR"@,
        IssueSeverity::Warning => "WARN"@,
        IssueSeverity::Info => "INFO"@,
    }
}

/// The text shown for a kind of issue.
pub open spec fn kind_text(k: IssueKind) -> Seq<char> {
    match k {
        IssueKind::WrongFormat => "Wrong Format (not WebP/AVIF)"@,
        IssueKind::MissingWidthHeight => "Missing width/height"@,
        IssueKind::MissingLazyLoading => "Missing lazy loading"@,
        IssueKind::OversizedFile => "Oversized image file"@,
        IssueKind::MissingSrcset => "Missing srcset"@,
        IssueKind::MissingAlt => "Missing alt attribute"@,
    }
}

impl IssueSeverity {
    /// The text shown for this severity.
    pub fn label(&self) -> (s: String)
        ensures
            s@ == severity_text(*self),
    {
        match self {
            IssueSeverity::Error => "ERROR".to_owned(),
            IssueSeverity::Warning => "WARN".to_owned(),
            IssueSeverity::Info => "INFO".to_owned(),
        }
    }
}

impl IssueKind {
    /// The text shown for this kind of issue.
    pub fn label(&self) -> (s: String)
        ensures
            s@ == kind_text(*self),
    {
        match self {
            IssueKind::WrongFormat => "Wrong Format (not WebP/AVIF)".to_owned(),
            IssueKind::MissingWidthHeight => "Missing width/height".to_owned(),
            IssueKind::MissingLazyLoading => "Missing lazy loading".to_owned(),
            IssueKind::OversizedFile => "Oversized image file".to_owned(),
            IssueKind::MissingSrcset => "Missing srcset".to_owned(),
            IssueKind::MissingAlt => "Missing alt attribute".to_owned(),
        }
    }
}

/// How to fix an issue of kind `k`, as the detail view shows it.
pub open spec fn advice_text(k: IssueKind) -> Seq<char> {
    match k {
        IssueKind::WrongFormat => "  💡 Convert to WebP using cwebp or squoosh. AVIF gives best compression."@,
        IssueKind::MissingAlt => "  💡 Add alt attribute for accessibility and SEO."@,
        IssueKind::MissingWidthHeight => "  💡 Add explicit width and height to prevent layout shift (CLS)."@,
        IssueKind::MissingLazyLoading => "  💡 Add loading=\"lazy\" for below-fold images. Use loading=\"eager\" for LCP."@,
        IssueKind::OversizedFile => "  💡 Compress below 200 KiB via squoosh, imagemin, or a CDN transform."@,
        IssueKind::MissingSrcset => "  💡 Add srcset with multiple resolutions, e.g.: srcset=\"img-400.webp 400w, img-800.webp 800w\""@,
    }
}

/// The advice line shown under an issue of kind `kind`.
pub fn advice_line(kind: &IssueKind) -> (s: String)
    ensures
        s@ == advice_text(*kind),
{
    match kind {
        IssueKind::WrongFormat => "  💡 Convert to WebP using cwebp or squoosh. AVIF gives best compression.".to_owned(),
        IssueKind::MissingAlt => "  💡 Add alt attribute for accessibility and SEO.".to_owned(),
        IssueKind::MissingWidthHeight => "  💡 Add explicit width and height to prevent layout shift (CLS).".to_owned(),
        IssueKind::MissingLazyLoading => "  💡 Add loading=\"lazy\" for below-fold images. Use loading=\"eager\" for LCP.".to_owned(),
        IssueKind::OversizedFile => "  💡 Compress below 200 KiB via squoosh, imagemin, or a CDN transform.".to_owned(),
        IssueKind::MissingSrcset => "  💡 Add srcset with multiple resolutions, e.g.: srcset=\"img-400.webp 400w, img-800.webp 800w\"".to_owned(),
    }
}

/// The mathematical content of an `Issue`.
pub ghost struct IssueView {
    pub kind: IssueKind,
    pub severity: IssueSeverity,
    pub file: Seq<char>,
    pub line: int,
    pub snippet: Seq<char>,
    pub message: Seq<char>,
}

/// One problem found in one file.
#[derive(Debug, Clone)]
pub struct Issue {
    pub kind: IssueKind,
    pub severity: IssueSeverity,
    pub file: String,
    pub line: usize,
    pub snippet: String,
    pub message: String,
}

impl View for Issue {
    type V = IssueView;

    open spec fn view(&self) -> IssueView {
        IssueView {
            kind: self.kind,
            severity: self.severity,
            file: self.file@,
            line: self.line as int,
            snippet: self.snippet@,
            message: self.message@,
        }
    }
}

/// The views of a sequence of issues.
pub open spec fn issues_view(v: Seq<Issue>) -> Seq<IssueView> {
    v.map_values(|i: Issue| i@)
}

impl Issue {
    /// A copy of this issue with the same content.
    pub fn duplicate(&self) -> (r: Issue)
        ensures
            r@ == self@,
    {
        Issue {
            kind: self.kind,
            severity: self.severity,
            file: self.file.clone(),
            line: self.line,
            snippet: self.snippet.clone(),
            message: self.message.clone(),
        }
    }
}

/// The outcome of scanning a directory.
#[derive(Debug)]
pub struct ScanResult {
    pub issues: Vec<Issue>,
    pub files_scanned: usize,
    pub images_found: usize,
}

/// The mathematical content of a `ScanResult`.
#[verifier::ext_equal]
pub ghost struct ScanView {
    pub issues: Seq<IssueView>,
    pub files_scanned: nat,
    pub images_found: nat,
}

impl View for ScanResult {
    type V = ScanView;

    open spec fn view(&self) -> ScanView {
        ScanView {
            issues: issues_view(self.issues@),
            files_scanned: self.files_scanned as nat,
            images_found: self.images_found as nat,
        }
    }
}

/// The number of issues of `v` with severity `s`.
pub open spec fn severity_count(v: Seq<IssueView>, s: IssueSeverity) -> nat
    decreases v.len(),
{
    if v.len() == 0 {
        0
    } else {
        severity_count(v.drop_last(), s) + if v.last().severity == s {
            1nat
        } else {
            0nat
        }
    }
}

impl ScanResult {
    /// The number of issues with severity `s`.
    pub fn count_severity(&self, s: IssueSeverity) -> (n: usize)
        ensures
            n == severity_count(self@.issues, s),
    {
        let ghost v = issues_view(self.issues@);
        let mut n: usize = 0;
        let mut k: usize = 0;
        while k < self.issues.len()
            invariant
                k <= self.issues@.len(),
                v == issues_view(self.issues@),
                n == severity_count(v.take(k as int), s),
                n <= k,
            decreases self.issues@.len() - k,
        {
            proof {
                assert(v.take(k + 1).drop_last() =~= v.take(k as int));
                assert(v.take(k + 1).last() == self.issues@[k as int]@);
            }
            if self.issues[k].severity == s {
                n = n + 1;
            }
            k = k + 1;
        }
        assert(v.take(k as int) =~= v);
        n
    }

    /// An empty result: no issues, nothing scanned.
    pub fn new() -> (r: ScanResult)
        ensures
            r.issues@.len() == 0,
            r.files_scanned == 0,
            r.images_found == 0,
    {
        ScanResult { issues: Vec::new(), files_scanned: 0, images_found: 0 }
    }
}

impl Default for ScanResult {
    fn default() -> (r: ScanResult)
        ensures
            r.issues@.len() == 0,
            r.files_scanned == 0,
            r.images_found == 0,
    {
        ScanResult::new()
    }
}

} // verus!
