use image_auditor::llm::SuggestedPatch;
use image_auditor::patch::{apply_suggested_patch, denormalize_span, normalize_ws};
use image_auditor::types::{Issue, IssueKind, IssueSeverity};

fn issue() -> Issue {
    Issue {
        kind: IssueKind::MissingLazyLoading,
        severity: IssueSeverity::Warning,
        file: "pages/index.html".to_string(),
        line: 2,
        snippet: String::new(),
        message: String::new(),
    }
}

fn patch(before: &str, after: &str) -> SuggestedPatch {
    SuggestedPatch { before: before.to_string(), after: after.to_string() }
}

#[test]
fn exact_match_replaces_first_occurrence() {
    let contents = "<p>\n<img src=\"a.jpg\">\n<img src=\"a.jpg\">\n";
    let r = apply_suggested_patch(
        &issue(),
        &patch("\n<img src=\"a.jpg\">\n\n", "<img src=\"a.jpg\" loading=\"lazy\">\n"),
        contents,
    );
    assert_eq!(r, Ok("<p>\n<img src=\"a.jpg\" loading=\"lazy\">\n<img src=\"a.jpg\">\n".to_string()));
}

#[test]
fn whitespace_normalized_match_maps_back_to_original_span() {
    let contents = "<div>\n  <img\n      src=\"a.jpg\"\n      alt=\"\">\n</div>";
    let r = apply_suggested_patch(
        &issue(),
        &patch("<img src=\"a.jpg\" alt=\"\">", "<img src=\"a.jpg\" alt=\"\" loading=\"lazy\">"),
        contents,
    );
    assert_eq!(r, Ok("<div>\n  <img src=\"a.jpg\" alt=\"\" loading=\"lazy\">\n</div>".to_string()));
}

#[test]
fn normalized_match_with_leading_space_keeps_indentation_run_start() {
    let contents = "a  b\tc";
    let r = apply_suggested_patch(&issue(), &patch(" b c", "X"), contents);
    assert_eq!(r, Ok("aX".to_string()));
}

#[test]
fn missing_snippet_is_an_error_naming_the_file() {
    let r = apply_suggested_patch(&issue(), &patch("<video>", "<video muted>"), "<img>");
    assert_eq!(
        r,
        Err("Could not locate the original snippet in 'pages/index.html' (tried exact and whitespace-normalized match).\nThe file may have been modified, or the LLM patch does not match the source.".to_string())
    );
}

#[test]
fn normalize_collapses_every_unicode_space_run() {
    assert_eq!(normalize_ws("a \t\n b\u{a0}\u{2003}c  "), "a b c ");
    assert_eq!(normalize_ws(""), "");
    assert_eq!(normalize_ws("\n\n"), " ");
}

#[test]
fn normalize_is_idempotent() {
    for s in ["a  b", " x\n\ty ", "", "\u{3000}\u{3000}z", "no-space"] {
        let once = normalize_ws(s);
        assert_eq!(normalize_ws(&once), once);
    }
}

#[test]
fn denormalize_span_examples() {
    // "a  b" normalises to "a b".
    assert_eq!(denormalize_span("a  b", 2, 1), Some((3, 4)));
    assert_eq!(denormalize_span("a  b", 1, 1), Some((1, 2)));
    assert_eq!(denormalize_span("a  b", 0, 3), Some((0, 4)));
    assert_eq!(denormalize_span("a  b", 0, 4), None);
    assert_eq!(denormalize_span("", 0, 0), None);
}

#[test]
fn replaced_text_normalizes_like_before() {
    let contents = "x\n<img\n   src=\"q.png\">\ny";
    let before = "<img src=\"q.png\">";
    let r = apply_suggested_patch(&issue(), &patch(before, "@"), contents).unwrap();
    assert_eq!(r, "x\n@\ny");
}

#[test]
fn same_text_patch_leaves_file_unchanged() {
    let contents = "<p>\n<img src=\"a.jpg\">\n";
    let r = apply_suggested_patch(&issue(), &patch("<img src=\"a.jpg\">\n", "\n<img src=\"a.jpg\">"), contents);
    assert_eq!(r, Ok(contents.to_string()));
}

#[test]
fn every_nonempty_part_of_the_normal_form_maps_back() {
    let original = "a \t b\n\n  cd  ";
    let n = normalize_ws(original).chars().count();
    for start in 0..n {
        for len in 1..=(n - start) {
            assert!(denormalize_span(original, start, len).is_some(), "{} {}", start, len);
        }
    }
}
