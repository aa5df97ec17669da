use image_auditor::scanner::{
    count_img_tags, image_probe_paths, is_scanned_file, scan_file, scan_file_defined, should_skip,
};
use image_auditor::types::{Issue, IssueKind, IssueSeverity, ScanResult};

fn scan(html: &str) -> Vec<Issue> {
    let sizes: Vec<(String, u64)> = Vec::new();
    scan_file("test.html", html, ".", &sizes)
}

#[test]
fn detects_multiple_issues_on_bare_img() {
    let issues = scan(r#"<img src="hero.jpg">"#);
    let kinds: Vec<_> = issues.iter().map(|i| &i.kind).collect();
    assert!(kinds.contains(&&IssueKind::WrongFormat));
    assert!(kinds.contains(&&IssueKind::MissingWidthHeight));
    assert!(kinds.contains(&&IssueKind::MissingLazyLoading));
    assert!(kinds.contains(&&IssueKind::MissingSrcset));
}

#[test]
fn clean_img_tag_has_no_issues() {
    let issues = scan(
        r#"<img src="hero.webp" width="800" height="400" loading="lazy" srcset="hero-2x.webp 2x">"#,
    );
    assert!(issues.is_empty(), "unexpected issues: {:?}", issues);
}

#[test]
fn jsx_image_without_alt_detected() {
    let issues = scan("<Image src=\"hero.webp\" width={800} height={400} />");
    let kinds: Vec<_> = issues.iter().map(|i| &i.kind).collect();
    assert!(kinds.contains(&&IssueKind::MissingAlt));
}

#[test]
fn jsx_image_with_alt_no_alt_issue() {
    let issues = scan(r#"<Image src="hero.webp" alt="A hero" width={800} height={400} />"#);
    let alt_issues: Vec<_> = issues.iter().filter(|i| i.kind == IssueKind::MissingAlt).collect();
    assert!(alt_issues.is_empty());
}

#[test]
fn line_numbers_are_correct() {
    let html = "<!-- line 1 -->\n<!-- line 2 -->\n<img src=\"hero.jpg\">";
    let issues = scan(html);
    assert!(issues.iter().all(|i| i.line == 3));
}

// ── Further cases ───────────────────────────────────────────────────────────

#[test]
fn issues_come_in_check_order_per_tag() {
    let issues = scan("<img src=\"a.png\">\n<img src=\"b.webp\" width=\"1\" height=\"1\">");
    let kinds: Vec<IssueKind> = issues.iter().map(|i| i.kind).collect();
    assert_eq!(
        kinds,
        vec![
            IssueKind::WrongFormat,
            IssueKind::MissingWidthHeight,
            IssueKind::MissingLazyLoading,
            IssueKind::MissingSrcset,
            IssueKind::MissingLazyLoading,
            IssueKind::MissingSrcset,
        ]
    );
    assert_eq!(issues[0].line, 1);
    assert_eq!(issues[4].line, 2);
    assert_eq!(issues[0].snippet, "<img src=\"a.png\">");
    assert!(issues.iter().all(|i| i.file == "test.html"));
}

#[test]
fn multi_line_tag_snippet_keeps_five_lines() {
    let html = "<p>\n<img\n a\n b\n c\n d\n e\n src=\"x.webp\">";
    let issues = scan(html);
    assert_eq!(issues[0].line, 2);
    assert_eq!(issues[0].snippet, "<img\n a\n b\n c\n d");
}

#[test]
fn quoted_greater_than_does_not_end_tag() {
    let issues = scan(r#"<img alt="a > b" src="x.png" width="1" height="1" loading="lazy" srcset="s">"#);
    assert_eq!(issues.len(), 1);
    assert_eq!(issues[0].kind, IssueKind::WrongFormat);
}

#[test]
fn php_echo_inside_quoted_src_is_no_issue() {
    let issues = scan(r#"<img src="<?php echo $u ?>" width="1" height="1" loading="lazy" srcset="s">"#);
    assert!(issues.is_empty(), "unexpected issues: {:?}", issues);
}

#[test]
fn uppercase_img_tag_is_found_but_imgx_is_not() {
    assert_eq!(count_img_tags("<IMG src=a><img><imgx><Img\n>"), 3);
    let issues = scan("<imgx src=\"a.png\">");
    assert!(issues.is_empty());
}

#[test]
fn jsx_component_spanning_lines() {
    let with_alt = "<Image\n  src=\"a.webp\"\n  alt=\"x\"\n/>";
    assert!(scan(with_alt).iter().all(|i| i.kind != IssueKind::MissingAlt));
    let unclosed = "<Image src=\"a.webp\"\n width={1}";
    assert_eq!(scan(unclosed).iter().filter(|i| i.kind == IssueKind::MissingAlt).count(), 1);
}

#[test]
fn jsx_issue_names_first_line_trimmed() {
    let issues = scan("x\n   <Image\n  src=\"a.webp\"\n/>\n<Image alt=\"y\" />");
    let alt: Vec<Issue> = issues.into_iter().filter(|i| i.kind == IssueKind::MissingAlt).collect();
    assert_eq!(alt.len(), 1);
    assert_eq!(alt[0].line, 2);
    assert_eq!(alt[0].snippet, "<Image");
    assert_eq!(alt[0].severity, IssueSeverity::Warning);
    assert_eq!(alt[0].message, "JSX <Image> component missing alt attribute (accessibility + SEO).");
}

#[test]
fn oversized_images_use_recorded_sizes() {
    let sizes = vec![("./big.png".to_string(), 409_600u64)];
    let issues = scan_file("test.html", "<img src=\"big.png\">", ".", &sizes);
    assert!(issues.iter().any(|i| i.kind == IssueKind::OversizedFile
        && i.message == "Image file is 400.0 KiB — exceeds recommended 200 KiB limit."));
    assert_eq!(
        image_probe_paths("test.html", "<img src=\"big.png\"><img src=\"data:x\">", "."),
        vec!["./big.png".to_string(), "big.png".to_string()]
    );
}

#[test]
fn snippet_cut_inside_a_character_is_flagged() {
    // 11 bytes, then two-byte characters: byte 300 falls inside one.
    let odd = format!("<img  alt=\"{}\">", "é".repeat(200));
    assert!(!scan_file_defined(&odd));
    let even = format!("<img alt=\"{}\">", "é".repeat(200));
    assert!(scan_file_defined(&even));
    let issues = scan(&even);
    assert_eq!(issues[0].snippet.len(), 300);
}

#[test]
fn skipped_directories_and_extensions() {
    assert!(should_skip("proj/node_modules/x.html"));
    assert!(should_skip("proj/.git/x.html"));
    assert!(!should_skip("proj/src/x.html"));
    assert!(is_scanned_file("proj/src/Index.HTML"));
    assert!(is_scanned_file("a/b.svelte"));
    assert!(!is_scanned_file("a/b.txt"));
    assert!(!is_scanned_file("a/README"));
    assert!(!is_scanned_file("proj/dist/x.js"));
}

#[test]
fn scan_result_bookkeeping() {
    let mut r = ScanResult::new();
    r.count_file();
    r.record_read_error("root/sub/a.html", "root", "denied");
    r.record_read_error("elsewhere/b.html", "root", "gone");
    let sizes: Vec<(String, u64)> = Vec::new();
    r.record_file("root/c.html", "<img src=\"x.webp\"><IMG>", "root", &sizes);
    assert_eq!(r.files_scanned, 1);
    assert_eq!(r.images_found, 2);
    assert_eq!(r.issues[0].file, "sub/a.html");
    assert_eq!(r.issues[0].line, 0);
    assert_eq!(r.issues[0].kind, IssueKind::OversizedFile);
    assert_eq!(r.issues[0].snippet, "File Read Error");
    assert_eq!(r.issues[0].message, "Permission denied or read error: denied");
    assert_eq!(r.issues[1].file, "elsewhere/b.html");
    assert!(r.issues.len() > 2);
    assert!(r.issues[2..].iter().all(|i| i.file == "root/c.html"));
}

#[test]
fn every_issue_names_file_and_kind_severity() {
    let html = "<img src=\"a.png\">\n<Image src=\"b\" />\n<img src=\"c.svg\" width=\"1\">";
    let sizes = vec![("./a.png".to_string(), 999_999u64)];
    let issues = scan_file("site/x.html", html, ".", &sizes);
    assert!(issues.len() >= 7);
    for i in &issues {
        assert_eq!(i.file, "site/x.html");
        let expected = match i.kind {
            IssueKind::WrongFormat | IssueKind::MissingLazyLoading | IssueKind::MissingAlt => {
                IssueSeverity::Warning
            }
            IssueKind::MissingWidthHeight | IssueKind::OversizedFile => IssueSeverity::Error,
            IssueKind::MissingSrcset => IssueSeverity::Info,
        };
        assert_eq!(i.severity, expected);
    }
}

#[test]
fn checked_scans_refuse_split_snippets() {
    let sizes: Vec<(String, u64)> = Vec::new();
    let odd = format!("<img  alt=\"{}\">", "é".repeat(200));
    assert!(image_auditor::scanner::scan_file_checked("t.html", &odd, ".", &sizes).is_none());
    let fine = "<img src=\"a.webp\">";
    let issues = image_auditor::scanner::scan_file_checked("t.html", fine, ".", &sizes).unwrap();
    assert_eq!(issues.len(), 3);
    let mut r = ScanResult::new();
    assert!(!r.record_file_checked("t.html", &odd, ".", &sizes));
    assert!(r.issues.is_empty() && r.images_found == 0);
    assert!(r.record_file_checked("t.html", fine, ".", &sizes));
    assert_eq!((r.issues.len(), r.images_found), (3, 1));
}
