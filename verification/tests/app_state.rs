use image_auditor::app::{handle_detail, handle_menu, handle_results, Action, App, Key, Screen};
use image_auditor::llm::{LlmSuggestion, SuggestedPatch};
use image_auditor::types::{Issue, IssueKind, IssueSeverity, ScanResult};

fn make_issue(kind: IssueKind, severity: IssueSeverity, file: &str) -> Issue {
    Issue {
        kind,
        severity,
        file: file.to_string(),
        line: 1,
        snippet: String::new(),
        message: String::new(),
    }
}

fn app_with_issues(issues: Vec<Issue>) -> App {
    let mut app = App::new();
    app.scan_result = Some(ScanResult { issues, files_scanned: 1, images_found: 1 });
    app.update_filter_cache();
    app
}

#[test]
fn filter_by_severity_error() {
    let mut app = app_with_issues(vec![
        make_issue(IssueKind::MissingWidthHeight, IssueSeverity::Error, "a.html"),
        make_issue(IssueKind::WrongFormat, IssueSeverity::Warning, "b.html"),
    ]);
    app.filter_severity = Some(IssueSeverity::Error);
    app.update_filter_cache();
    let issues = app.filtered_issues();
    assert_eq!(issues.len(), 1);
    assert_eq!(issues[0].severity, IssueSeverity::Error);
}

#[test]
fn filter_by_tab() {
    let mut app = app_with_issues(vec![
        make_issue(IssueKind::WrongFormat, IssueSeverity::Warning, "a.html"),
        make_issue(IssueKind::MissingWidthHeight, IssueSeverity::Error, "b.html"),
    ]);
    app.active_tab = 1;
    app.update_filter_cache();
    let issues = app.filtered_issues();
    assert_eq!(issues.len(), 1);
    assert_eq!(issues[0].kind, IssueKind::WrongFormat);
}

#[test]
fn search_by_filename() {
    let mut app = app_with_issues(vec![
        make_issue(IssueKind::WrongFormat, IssueSeverity::Warning, "hero.html"),
        make_issue(IssueKind::WrongFormat, IssueSeverity::Warning, "footer.html"),
    ]);
    app.search_query = "hero".to_string();
    app.update_filter_cache();
    let issues = app.filtered_issues();
    assert_eq!(issues.len(), 1);
    assert!(issues[0].file.contains("hero"));
}

#[test]
fn no_filter_returns_all() {
    let app = app_with_issues(vec![
        make_issue(IssueKind::WrongFormat, IssueSeverity::Warning, "a.html"),
        make_issue(IssueKind::MissingWidthHeight, IssueSeverity::Error, "b.html"),
        make_issue(IssueKind::MissingSrcset, IssueSeverity::Info, "c.html"),
    ]);
    assert_eq!(app.filtered_issues().len(), 3);
}

// ── Further cases ───────────────────────────────────────────────────────────

fn three() -> App {
    app_with_issues(vec![
        make_issue(IssueKind::WrongFormat, IssueSeverity::Warning, "dir/Hero.html"),
        make_issue(IssueKind::MissingWidthHeight, IssueSeverity::Error, "hero/b.html"),
        make_issue(IssueKind::MissingSrcset, IssueSeverity::Info, "c.html"),
    ])
}

#[test]
fn search_matches_file_name_only_ignoring_case() {
    let mut app = three();
    app.search_query = "HERO".to_string();
    app.update_filter_cache();
    let issues = app.filtered_issues();
    assert_eq!(issues.len(), 1);
    assert_eq!(issues[0].file, "dir/Hero.html");
}

#[test]
fn tab_then_back_tab_restores_category() {
    let mut app = three();
    app.screen = Screen::Results;
    handle_results(&mut app, Key::Tab);
    assert_eq!(app.active_tab, 1);
    assert_eq!(app.filtered_issues().len(), 1);
    handle_results(&mut app, Key::BackTab);
    assert_eq!(app.active_tab, 0);
    assert_eq!(app.filtered_issues().len(), 3);
    handle_results(&mut app, Key::BackTab);
    assert_eq!(app.active_tab, 5);
    assert_eq!(app.filtered_issues()[0].kind, IssueKind::MissingSrcset);
    assert_eq!(app.table_selected, Some(0));
}

#[test]
fn severity_keys_filter_the_list() {
    let mut app = three();
    handle_results(&mut app, Key::Char('2'));
    assert!(app.filtered_issues().iter().all(|i| i.severity == IssueSeverity::Error));
    handle_results(&mut app, Key::Char('4'));
    assert_eq!(app.filtered_issues()[0].severity, IssueSeverity::Info);
    handle_results(&mut app, Key::Char('1'));
    assert_eq!(app.filtered_issues().len(), 3);
}

#[test]
fn typing_and_deleting_in_search_restores_list() {
    let mut app = three();
    handle_results(&mut app, Key::Char('/'));
    assert!(app.search_mode);
    handle_results(&mut app, Key::Char('c'));
    assert_eq!(app.search_query, "c");
    assert_eq!(app.filtered_issues().len(), 1);
    handle_results(&mut app, Key::Backspace);
    assert_eq!(app.search_query, "");
    assert_eq!(app.filtered_issues().len(), 3);
    handle_results(&mut app, Key::Enter);
    assert!(!app.search_mode);
}

#[test]
fn selection_moves_within_the_list_and_opens_detail() {
    let mut app = three();
    handle_results(&mut app, Key::Down);
    handle_results(&mut app, Key::Char('j'));
    handle_results(&mut app, Key::Down);
    assert_eq!(app.table_selected, Some(2));
    handle_results(&mut app, Key::Up);
    assert_eq!(app.table_selected, Some(1));
    assert_eq!(app.scroll_position, 1);
    match handle_results(&mut app, Key::Char('c')) {
        Action::CopyPath(p) => assert_eq!(p, "hero/b.html"),
        other => panic!("unexpected action {:?}", other),
    }
    assert!(matches!(handle_results(&mut app, Key::Char('s')), Action::ExportReport));
    handle_results(&mut app, Key::Enter);
    assert_eq!(app.screen, Screen::Detail);
    assert_eq!(app.detail_issue.as_ref().map(|i| i.file.clone()), Some("hero/b.html".to_string()));
}

#[test]
fn leaving_results_drops_the_scan() {
    let mut app = three();
    handle_results(&mut app, Key::Esc);
    assert_eq!(app.screen, Screen::Menu);
    assert!(app.scan_result.is_none());
    assert!(app.filtered_issues().is_empty());
}

#[test]
fn export_failure_returns_to_menu() {
    let mut app = three();
    app.export_finished(Err("disk full".to_string()));
    assert_eq!(app.screen, Screen::Menu);
    assert_eq!(app.scan_error.as_deref(), Some("Export failed: disk full"));
}

#[test]
fn menu_path_editing_and_scan_start() {
    let mut app = App::new();
    assert!(matches!(handle_menu(&mut app, Key::Enter, false), Action::Nothing));
    assert!(app.input_mode);
    handle_menu(&mut app, Key::Backspace, false);
    assert_eq!(app.input_path, "");
    assert!(matches!(handle_menu(&mut app, Key::Enter, false), Action::Nothing));
    assert_eq!(app.scan_error.as_deref(), Some("Please enter a path to scan."));
    handle_menu(&mut app, Key::Char('s'), false);
    handle_menu(&mut app, Key::Char('é'), false);
    assert_eq!(app.input_path, "sé");
    assert!(matches!(handle_menu(&mut app, Key::Enter, false), Action::StartScan));
    assert_eq!(app.screen, Screen::Scanning);
    assert!(app.scan_error.is_none());
    assert!(!app.input_mode);
}

#[test]
fn menu_navigation_and_quit() {
    let mut app = App::new();
    handle_menu(&mut app, Key::Down, false);
    handle_menu(&mut app, Key::Down, false);
    assert_eq!(app.menu_selected, Some(1));
    handle_menu(&mut app, Key::Char('k'), false);
    handle_menu(&mut app, Key::Up, false);
    assert_eq!(app.menu_selected, Some(0));
    handle_menu(&mut app, Key::Char('c'), false);
    assert!(app.running);
    handle_menu(&mut app, Key::Char('c'), true);
    assert!(!app.running);
    for key in [Key::Char('q'), Key::Esc] {
        let mut app = App::new();
        handle_menu(&mut app, key, false);
        assert!(!app.running);
    }
    // While the path is edited, `q` is typed and Esc stops editing.
    let mut app = App::new();
    handle_menu(&mut app, Key::Enter, false);
    handle_menu(&mut app, Key::Char('q'), false);
    assert_eq!(app.input_path, ".q");
    handle_menu(&mut app, Key::Esc, false);
    assert!(app.running && !app.input_mode);
}

fn detail_app(kind: IssueKind) -> App {
    let mut app = app_with_issues(vec![make_issue(kind, IssueSeverity::Error, "a.html")]);
    handle_results(&mut app, Key::Enter);
    app
}

#[test]
fn asking_the_model_needs_a_provider() {
    let mut app = detail_app(IssueKind::MissingWidthHeight);
    assert!(matches!(handle_detail(&mut app, Key::Char('a')), Action::Nothing));
    assert_eq!(
        app.detail_suggestion_error.as_deref(),
        Some("LLM provider not configured. Check your .env file.")
    );
    app.llm_available = true;
    match handle_detail(&mut app, Key::Char('a')) {
        Action::AskLlm(i) => assert_eq!(i.file, "a.html"),
        other => panic!("unexpected action {:?}", other),
    }
    assert!(app.detail_loading_suggestion);
    assert!(app.detail_suggestion_error.is_none());
    assert!(matches!(handle_detail(&mut app, Key::Char('a')), Action::Nothing));
}

#[test]
fn format_issues_cannot_be_patched() {
    let mut app = detail_app(IssueKind::WrongFormat);
    app.llm_available = true;
    assert!(matches!(handle_detail(&mut app, Key::Char('a')), Action::Nothing));
    handle_detail(&mut app, Key::Char('p'));
    let msg = Some("Patching is not supported for format conversion issues.");
    assert_eq!(app.detail_suggestion_error.as_deref(), msg);
    assert_eq!(app.detail_patch_error.as_deref(), msg);
}

#[test]
fn suggestion_then_patch_confirmation_flow() {
    let mut app = detail_app(IssueKind::MissingLazyLoading);
    handle_detail(&mut app, Key::Char('p'));
    assert_eq!(
        app.detail_patch_error.as_deref(),
        Some("No patch available. Press 'a' to ask the LLM first.")
    );
    app.llm_available = true;
    handle_detail(&mut app, Key::Char('a'));
    let patch = SuggestedPatch { before: "<img>".to_string(), after: "<img loading=\"lazy\">".to_string() };
    app.poll_llm(Some(Ok(LlmSuggestion { text: "raw".to_string(), patch: Some(patch) })));
    assert!(!app.detail_loading_suggestion);
    assert_eq!(app.detail_suggestion.as_deref(), Some("raw"));
    handle_detail(&mut app, Key::Char('p'));
    assert!(app.detail_patch_confirm_mode);
    assert!(app.detail_patch_error.is_none());
    match handle_detail(&mut app, Key::Char('y')) {
        Action::ApplyPatch(i, p) => {
            assert_eq!(i.file, "a.html");
            assert_eq!(p.before, "<img>");
        }
        other => panic!("unexpected action {:?}", other),
    }
    assert!(matches!(app.patch_finished(Err("boom".to_string()), 10), Action::Nothing));
    assert_eq!(app.detail_patch_error.as_deref(), Some("Patch failed: boom"));
    assert!(!app.detail_patch_confirm_mode);
    handle_detail(&mut app, Key::Char('p'));
    assert!(matches!(app.patch_finished(Ok(()), 1000), Action::Rescan));
    let ps = app.patch_success.as_ref().unwrap();
    assert_eq!((ps.file.as_str(), ps.line, ps.at_ms), ("a.html", 1, 1000));
    assert!(app.detail_suggested_patch.is_none());
    app.poll_patch_success(4999);
    assert!(app.patch_success.is_some());
    app.poll_patch_success(5000);
    assert!(app.patch_success.is_none());
    assert_eq!(app.screen, Screen::Results);
    assert!(app.detail_issue.is_none());
}

#[test]
fn any_key_dismisses_patch_overlay() {
    let mut app = detail_app(IssueKind::MissingLazyLoading);
    app.patch_finished(Ok(()), 0);
    handle_detail(&mut app, Key::Other);
    assert_eq!(app.screen, Screen::Results);
    assert!(app.patch_success.is_none());
}

#[test]
fn detail_scroll_saturates() {
    let mut app = detail_app(IssueKind::MissingSrcset);
    handle_detail(&mut app, Key::Up);
    assert_eq!(app.detail_scroll, 0);
    handle_detail(&mut app, Key::Down);
    handle_detail(&mut app, Key::Char('j'));
    assert_eq!(app.detail_scroll, 2);
    app.detail_scroll = u16::MAX;
    handle_detail(&mut app, Key::Down);
    assert_eq!(app.detail_scroll, u16::MAX);
    handle_detail(&mut app, Key::Esc);
    assert_eq!(app.screen, Screen::Results);
    assert_eq!(app.detail_scroll, 0);
}

#[test]
fn model_error_clears_suggestion() {
    let mut app = detail_app(IssueKind::MissingSrcset);
    app.detail_suggestion = Some("old".to_string());
    app.detail_loading_suggestion = true;
    app.poll_llm(None);
    assert!(app.detail_loading_suggestion);
    app.poll_llm(Some(Err("timeout".to_string())));
    assert!(!app.detail_loading_suggestion);
    assert!(app.detail_suggestion.is_none());
    assert_eq!(app.detail_suggestion_error.as_deref(), Some("timeout"));
}

#[test]
fn scan_outcomes() {
    let mut app = App::new();
    app.poll_scan(Some(Err("no such dir".to_string())));
    assert_eq!(app.screen, Screen::Menu);
    assert_eq!(app.scan_error.as_deref(), Some("no such dir"));
    let result = ScanResult {
        issues: vec![make_issue(IssueKind::MissingSrcset, IssueSeverity::Info, "a.html")],
        files_scanned: 1,
        images_found: 1,
    };
    app.table_selected = Some(4);
    app.poll_scan(Some(Ok(result)));
    assert_eq!(app.screen, Screen::Results);
    assert_eq!(app.table_selected, Some(0));
    assert_eq!(app.filtered_issues().len(), 1);
    let mut detail = detail_app(IssueKind::MissingSrcset);
    detail.poll_scan(Some(Ok(ScanResult::new())));
    assert_eq!(detail.screen, Screen::Detail);
    assert!(detail.filtered_issues().is_empty());
}

#[test]
fn detail_scroll_down_then_up_returns() {
    let mut app = detail_app(IssueKind::MissingSrcset);
    app.detail_scroll = 7;
    handle_detail(&mut app, Key::Down);
    handle_detail(&mut app, Key::Up);
    assert_eq!(app.detail_scroll, 7);
    assert_eq!(app.screen, Screen::Detail);
}

#[test]
fn severity_counts_of_a_result() {
    let r = ScanResult {
        issues: vec![
            make_issue(IssueKind::WrongFormat, IssueSeverity::Warning, "a"),
            make_issue(IssueKind::MissingWidthHeight, IssueSeverity::Error, "b"),
            make_issue(IssueKind::MissingLazyLoading, IssueSeverity::Warning, "c"),
        ],
        files_scanned: 1,
        images_found: 2,
    };
    assert_eq!(r.count_severity(IssueSeverity::Error), 1);
    assert_eq!(r.count_severity(IssueSeverity::Warning), 2);
    assert_eq!(r.count_severity(IssueSeverity::Info), 0);
}
