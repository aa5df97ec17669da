use image_auditor::prompt::{build_issue_prompt, is_verbose, read_file_context};
use image_auditor::types::{advice_line, Issue, IssueKind, IssueSeverity};

#[test]
fn context_numbers_lines_around_target() {
    let c = read_file_context(Some("l1\nl2\nl3\nl4\nl5\nl6"), 3, 1);
    assert_eq!(c, "(line 3 is the issue — copy it verbatim into BEFORE)\n   2: l2\n   3: l3\n   4: l4\n");
    let d = read_file_context(Some("a\r\nb"), 1, 4);
    assert_eq!(d, "(line 1 is the issue — copy it verbatim into BEFORE)\n   1: a\n   2: b\n");
    assert_eq!(read_file_context(None, 5, 4), "(file not readable)");
    let many: String = (1..=12000).map(|i| format!("x{}\n", i)).collect();
    let e = read_file_context(Some(&many), 10000, 0);
    assert_eq!(e, "(line 10000 is the issue — copy it verbatim into BEFORE)\n10000: x10000\n");
}

#[test]
fn verbosity_setting() {
    assert!(is_verbose(Some("1")));
    assert!(is_verbose(Some("TRUE")));
    assert!(is_verbose(Some("Yes")));
    assert!(!is_verbose(Some("0")));
    assert!(!is_verbose(Some(" true")));
    assert!(!is_verbose(None));
}

fn srcset_issue() -> Issue {
    Issue {
        kind: IssueKind::MissingSrcset,
        severity: IssueSeverity::Info,
        file: "site/a.html".to_string(),
        line: 2,
        snippet: String::new(),
        message: "No srcset".to_string(),
    }
}

#[test]
fn prompt_names_issue_and_asks_for_patch_only() {
    let p = build_issue_prompt(&srcset_issue(), Some("x\n<img>\ny"), false);
    let head = "You are fixing a specific image-delivery issue in html source code.\nFile: site/a.html  Line: 2\nIssue type: Missing srcset\nDiagnosis: No srcset\n\nFile context (line 2 is the target):\n(line 2 is the issue — copy it verbatim into BEFORE)\n   1: x\n   2: <img>\n   3: y\n\n\nRules:\n";
    assert!(p.starts_with(head), "{}", p);
    assert!(p.contains("Output ONLY the patch block below, no prose, no markdown fences:\n---PATCH---\nfile: site/a.html\nBEFORE:\n"));
    assert!(p.ends_with("---END_PATCH---\nIf no safe patch is possible output exactly: NO_PATCH"));
}

#[test]
fn verbose_prompt_allows_explanation() {
    let mut i = srcset_issue();
    i.file = "noext".to_string();
    let p = build_issue_prompt(&i, None, true);
    assert!(p.starts_with("You are fixing a specific image-delivery issue in unknown source code."));
    assert!(p.contains("(file not readable)"));
    assert!(p.contains("- If the tag spans multiple lines keep the same formatting.\n\nBriefly explain the fix, then emit:\n---PATCH---"));
    assert!(p.ends_with("---END_PATCH---"));
}

#[test]
fn labels_and_advice() {
    assert_eq!(IssueSeverity::Warning.label(), "WARN");
    assert_eq!(IssueKind::WrongFormat.label(), "Wrong Format (not WebP/AVIF)");
    assert_eq!(advice_line(&IssueKind::MissingAlt), "  💡 Add alt attribute for accessibility and SEO.");
}
