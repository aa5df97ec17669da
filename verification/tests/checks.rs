use image_auditor::checks::{
    candidate_files, check_missing_dimensions, check_missing_lazy, check_missing_srcset,
    check_oversized_file, check_wrong_format, format_kib, missing_dimension, needs_conversion,
    oversize_probe_paths,
};
use image_auditor::types::{Issue, IssueKind, IssueSeverity};

fn path() -> &'static str {
    "test.html"
}

// ── check_wrong_format ──────────────────────────────────────────────────────

#[test]
fn wrong_format_png_raises_warning() {
    let mut issues = vec![];
    check_wrong_format(path(), 1, "<img>", r#"src="hero.png""#, &mut issues);
    assert_eq!(issues.len(), 1);
    assert_eq!(issues[0].kind, IssueKind::WrongFormat);
    assert_eq!(issues[0].severity, IssueSeverity::Warning);
}

#[test]
fn wrong_format_webp_no_issue() {
    let mut issues = vec![];
    check_wrong_format(path(), 1, "<img>", r#"src="hero.webp""#, &mut issues);
    assert!(issues.is_empty());
}

#[test]
fn wrong_format_avif_no_issue() {
    let mut issues = vec![];
    check_wrong_format(path(), 1, "<img>", r#"src="hero.avif""#, &mut issues);
    assert!(issues.is_empty());
}

#[test]
fn wrong_format_data_uri_skipped() {
    let mut issues = vec![];
    check_wrong_format(path(), 1, "<img>", r#"src="data:image/png;base64,abc""#, &mut issues);
    assert!(issues.is_empty());
}

#[test]
fn wrong_format_dynamic_src_skipped() {
    let mut issues = vec![];
    check_wrong_format(path(), 1, "<img>", r#"src="${imgUrl}""#, &mut issues);
    assert!(issues.is_empty());
}

// ── check_missing_dimensions ────────────────────────────────────────────────

#[test]
fn missing_both_dimensions() {
    let mut issues = vec![];
    check_missing_dimensions(path(), 1, "<img>", r#"src="a.jpg""#, r#"<img src="a.jpg">"#, &mut issues);
    assert_eq!(issues.len(), 1);
    assert!(issues[0].message.contains("width and height"));
}

#[test]
fn missing_only_height() {
    let mut issues = vec![];
    check_missing_dimensions(
        path(),
        1,
        "<img>",
        r#"src="a.jpg" width="100""#,
        r#"<img src="a.jpg" width="100">"#,
        &mut issues,
    );
    assert_eq!(issues.len(), 1);
    assert!(issues[0].message.contains("height"));
}

#[test]
fn has_both_dimensions_no_issue() {
    let mut issues = vec![];
    check_missing_dimensions(
        path(),
        1,
        "<img>",
        r#"src="a.jpg" width="100" height="50""#,
        r#"<img src="a.jpg" width="100" height="50">"#,
        &mut issues,
    );
    assert!(issues.is_empty());
}

#[test]
fn php_ternary_width_height_no_issue() {
    let tag = r#"<img src="logo.png" <?= $w ? 'width="80"' : 'width="1"' ?> <?= $h ? 'height="30"' : 'height="1"' ?>/>"#;
    let mut issues: Vec<Issue> = vec![];
    check_missing_dimensions(path(), 1, tag, "", tag, &mut issues);
    assert!(issues.is_empty(), "unexpected issues: {:?}", issues);
}

#[test]
fn fill_prop_skips_dimension_check() {
    let mut issues = vec![];
    check_missing_dimensions(path(), 1, "<img>", r#"fill src="a.jpg""#, r#"<img fill src="a.jpg">"#, &mut issues);
    assert!(issues.is_empty());
}

// ── check_missing_lazy ──────────────────────────────────────────────────────

#[test]
fn missing_lazy_raises_warning() {
    let mut issues = vec![];
    check_missing_lazy(path(), 1, "<img>", r#"src="a.jpg""#, &mut issues);
    assert_eq!(issues.len(), 1);
    assert_eq!(issues[0].kind, IssueKind::MissingLazyLoading);
}

#[test]
fn lazy_loading_no_issue() {
    let mut issues = vec![];
    check_missing_lazy(path(), 1, "<img>", r#"src="a.jpg" loading="lazy""#, &mut issues);
    assert!(issues.is_empty());
}

#[test]
fn eager_loading_no_issue() {
    let mut issues = vec![];
    check_missing_lazy(path(), 1, "<img>", r#"src="a.jpg" loading="eager""#, &mut issues);
    assert!(issues.is_empty());
}

#[test]
fn fetchpriority_high_skips_lazy_check() {
    let mut issues = vec![];
    check_missing_lazy(path(), 1, "<img>", r#"src="a.jpg" fetchpriority="high""#, &mut issues);
    assert!(issues.is_empty());
}

// ── check_missing_srcset ────────────────────────────────────────────────────

#[test]
fn missing_srcset_raises_info() {
    let mut issues = vec![];
    check_missing_srcset(path(), 1, "<img>", r#"src="a.jpg""#, &mut issues);
    assert_eq!(issues.len(), 1);
    assert_eq!(issues[0].kind, IssueKind::MissingSrcset);
    assert_eq!(issues[0].severity, IssueSeverity::Info);
}

#[test]
fn srcset_present_no_issue() {
    let mut issues = vec![];
    check_missing_srcset(path(), 1, "<img>", r#"src="a.jpg" srcset="a-2x.jpg 2x""#, &mut issues);
    assert!(issues.is_empty());
}

#[test]
fn svg_skips_srcset_check() {
    let mut issues = vec![];
    check_missing_srcset(path(), 1, "<img>", r#"src="icon.svg""#, &mut issues);
    assert!(issues.is_empty());
}

// ── Further cases ───────────────────────────────────────────────────────────

#[test]
fn wrong_format_message_names_source() {
    let mut issues = vec![];
    check_wrong_format(path(), 7, "<img>", r#"src="hero.png""#, &mut issues);
    assert_eq!(
        issues[0].message,
        "Image 'hero.png' should be converted to WebP or AVIF for better compression."
    );
    assert_eq!(issues[0].line, 7);
    assert_eq!(issues[0].file, "test.html");
    assert_eq!(issues[0].snippet, "<img>");
}

#[test]
fn wrong_format_extension_is_case_insensitive() {
    let mut issues = vec![];
    check_wrong_format(path(), 1, "<img>", r#"SRC='HERO.JPEG'"#, &mut issues);
    assert_eq!(issues.len(), 1);
    assert_eq!(issues[0].message, "Image 'HERO.JPEG' should be converted to WebP or AVIF for better compression.");
}

#[test]
fn wrong_format_brace_expression_skipped() {
    let mut issues = vec![];
    check_wrong_format(path(), 1, "<img>", r#"src="{hero.png}""#, &mut issues);
    assert!(issues.is_empty());
    // A braced value is the text between the braces.
    check_wrong_format(path(), 1, "<img>", "src={hero.png}", &mut issues);
    assert_eq!(issues.len(), 1);
}

#[test]
fn wrong_format_no_src_no_issue() {
    let mut issues = vec![];
    check_wrong_format(path(), 1, "<img>", r#"alt="x.png""#, &mut issues);
    assert!(issues.is_empty());
}

#[test]
fn attribute_name_must_be_whole_word() {
    // The name is matched as a whole word: `srcx` is not `src`, while in
    // `data-src` the `-` ends a word, so `src` is found there.
    let mut issues = vec![];
    check_wrong_format(path(), 1, "<img>", r#"srcx="a.png""#, &mut issues);
    assert!(issues.is_empty());
    check_wrong_format(path(), 1, "<img>", r#"data-src="a.png""#, &mut issues);
    assert_eq!(issues.len(), 1);
}

#[test]
fn dimension_messages_name_what_is_missing() {
    let mut issues = vec![];
    check_missing_dimensions(path(), 1, "<img>", r#"src="a.jpg""#, r#"<img src="a.jpg">"#, &mut issues);
    check_missing_dimensions(path(), 1, "<img>", r#"height="5""#, r#"<img height="5">"#, &mut issues);
    check_missing_dimensions(path(), 1, "<img>", r#"width="5""#, r#"<img width="5">"#, &mut issues);
    assert_eq!(issues[0].message, "Missing 'width and height' attribute — causes layout shift (CLS).");
    assert_eq!(issues[1].message, "Missing 'width' attribute — causes layout shift (CLS).");
    assert_eq!(issues[2].message, "Missing 'height' attribute — causes layout shift (CLS).");
    assert_eq!(issues[0].severity, IssueSeverity::Error);
}

#[test]
fn lazy_values_ignore_ascii_case() {
    let mut issues = vec![];
    check_missing_lazy(path(), 1, "<img>", r#"loading="LAZY""#, &mut issues);
    check_missing_lazy(path(), 1, "<img>", r#"fetchpriority="High""#, &mut issues);
    assert!(issues.is_empty());
    check_missing_lazy(path(), 1, "<img>", r#"loading="auto""#, &mut issues);
    assert_eq!(issues.len(), 1);
    assert_eq!(
        issues[0].message,
        "Missing loading=\"lazy\" — below-the-fold images should be lazy loaded."
    );
}

#[test]
fn srcset_camel_case_and_brace_value_accepted() {
    let mut issues = vec![];
    check_missing_srcset(path(), 1, "<img>", r#"src="a.jpg" srcSet={set}"#, &mut issues);
    check_missing_srcset(path(), 1, "<img>", r#"src="{img}""#, &mut issues);
    assert!(issues.is_empty());
}

#[test]
fn probe_paths_join_root_and_file_directory() {
    let p = oversize_probe_paths("site/test.html", r#"src="/img/a%20b.png""#, "site");
    // Joining an absolute path replaces the base, as `Path::join` does.
    assert_eq!(p, vec!["site/img/a b.png".to_string(), "/img/a b.png".to_string()]);
    let q = oversize_probe_paths("test.html", r#"src="img/a.png""#, ".");
    assert_eq!(q, vec!["./img/a.png".to_string(), "img/a.png".to_string()]);
    let r = oversize_probe_paths("test.html", r#"src="https://x/a.png""#, ".");
    assert!(r.is_empty());
}

#[test]
fn oversized_file_reports_first_large_candidate() {
    let sizes = vec![("./img/a.png".to_string(), 100u64), ("img/a.png".to_string(), 300_000u64)];
    let mut issues = vec![];
    check_oversized_file(path(), 4, "<img>", r#"src="img/a.png""#, ".", &sizes, &mut issues);
    assert_eq!(issues.len(), 1);
    assert_eq!(issues[0].kind, IssueKind::OversizedFile);
    assert_eq!(issues[0].severity, IssueSeverity::Error);
    assert_eq!(issues[0].message, "Image file is 293.0 KiB — exceeds recommended 200 KiB limit.");
}

#[test]
fn oversized_file_at_limit_not_reported() {
    let sizes = vec![("./a.png".to_string(), 204_800u64)];
    let mut issues = vec![];
    check_oversized_file(path(), 1, "<img>", r#"src="a.png""#, ".", &sizes, &mut issues);
    assert!(issues.is_empty());
    let sizes = vec![("./a.png".to_string(), 204_801u64)];
    check_oversized_file(path(), 1, "<img>", r#"src="a.png""#, ".", &sizes, &mut issues);
    assert_eq!(issues.len(), 1);
}

#[test]
fn kib_text_matches_float_formatting() {
    let mut samples: Vec<u64> = vec![0, 1, 51, 52, 102, 204_800, 204_801, 300_000, 1_048_576, 123_456_789];
    for n in 0..5000u64 {
        samples.push(n * 37 + 204_800);
    }
    // Exact halves of a tenth of a KiB (0.25, 0.75, 1.25, 1.75 KiB) round to even.
    samples.extend([256u64, 768, 1280, 1792]);
    for n in samples {
        let expected = format!("{:.1}", n as f64 / 1024.0);
        let got: String = format_kib(n).into_iter().collect();
        assert_eq!(got, expected, "for {} bytes", n);
    }
}

fn chars(s: &str) -> Vec<char> {
    s.chars().collect()
}

#[test]
fn format_classification_of_lower_cased_sources() {
    assert!(needs_conversion(&chars("a/b.jpeg")));
    assert!(needs_conversion(&chars("x.tiff")));
    assert!(!needs_conversion(&chars("x.webp")));
    assert!(!needs_conversion(&chars("x.svg")));
    assert!(!needs_conversion(&chars("x.PNG")));
}

#[test]
fn dimension_gap_cases() {
    assert_eq!(missing_dimension("", &chars("<img>")), Some("width and height".to_string()));
    assert_eq!(missing_dimension("width=1", &chars("<img width=1>")), Some("height".to_string()));
    assert_eq!(missing_dimension("", &chars("<img <?= $x ?> width height>")), None);
    assert_eq!(missing_dimension("", &chars("<img widthheight>")), Some("width and height".to_string()));
}

#[test]
fn candidates_of_decoded_source() {
    assert_eq!(
        candidate_files("web/page.html", "web", "//img/x y.png"),
        vec!["web/img/x y.png".to_string(), "//img/x y.png".to_string()]
    );
    assert_eq!(candidate_files("page.html", "r", "a.png"), vec!["r/a.png".to_string(), "a.png".to_string()]);
}
