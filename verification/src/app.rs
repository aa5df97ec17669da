//! The state of the interactive auditor and how it reacts to keys and to the
//! results of background work.
//!
//! Each handler takes the state and an event and returns the work to start
//! (an `Action`); the program around it performs that work (scanning,
//! asking the model, writing files) and reports back through the `poll_*`
//! and `*_finished` functions.

use vstd::prelude::*;
use crate::llm::{LlmSuggestion, SuggestedPatch};
use crate::paths::{file_name_of, path_file_name};
use crate::text::{
    contains, contains_chars, copy_text, lowercase_chars, lowercased, opt_text, push_all,
    push_char, string_of, to_chars, trim_chars, trimmed,
};
use crate::types::{Issue, IssueKind, issues_view, IssueSeverity, IssueView, ScanResult, ScanView};

verus! {

broadcast use vstd::seq_lib::group_seq_properties;

/// The screen being shown.
#[derive(Debug, Clone, Copy, PartialEq, Eq, Structural)]
pub enum Screen {
    Menu,
    Scanning,
    Results,
    Detail,
}

/// The last patch applied, shown in a confirmation overlay: where it was
/// applied, and when (milliseconds on the caller's clock).
#[derive(Debug, Clone)]
pub struct PatchSuccess {
    pub file: String,
    pub line: usize,
    pub at_ms: u64,
}

impl View for PatchSuccess {
    type V = (Seq<char>, usize, u64);

    open spec fn view(&self) -> (Seq<char>, usize, u64) {
        (self.file@, self.line, self.at_ms)
    }
}

/// Everything the screens show and the handlers change.
pub struct App {
    pub screen: Screen,
    pub menu_selected: Option<usize>,
    pub input_path: String,
    pub input_mode: bool,
    pub scan_result: Option<ScanResult>,
    pub scan_error: Option<String>,
    pub table_selected: Option<usize>,
    pub scroll_position: usize,
    pub active_tab: usize,
    pub filter_severity: Option<IssueSeverity>,
    pub search_query: String,
    pub search_mode: bool,
    pub cached_filtered_indices: Vec<usize>,
    pub detail_issue: Option<Issue>,
    pub detail_scroll: u16,
    pub detail_suggestion: Option<String>,
    pub detail_suggested_patch: Option<SuggestedPatch>,
    pub detail_loading_suggestion: bool,
    pub detail_suggestion_error: Option<String>,
    pub detail_patch_confirm_mode: bool,
    pub detail_llm_confirm_mode: bool,
    pub detail_patch_error: Option<String>,
    pub patch_success: Option<PatchSuccess>,
    pub running: bool,
    pub llm_available: bool,
    pub tick: u64,
}

/// The mathematical content of an `App`.
#[verifier::ext_equal]
pub ghost struct AppView {
    pub screen: Screen,
    pub menu_selected: Option<usize>,
    pub input_path: Seq<char>,
    pub input_mode: bool,
    pub scan_result: Option<ScanView>,
    pub scan_error: Option<Seq<char>>,
    pub table_selected: Option<usize>,
    pub scroll_position: usize,
    pub active_tab: usize,
    pub filter_severity: Option<IssueSeverity>,
    pub search_query: Seq<char>,
    pub search_mode: bool,
    pub cached_filtered_indices: Seq<usize>,
    pub detail_issue: Option<IssueView>,
    pub detail_scroll: u16,
    pub detail_suggestion: Option<Seq<char>>,
    pub detail_suggested_patch: Option<(Seq<char>, Seq<char>)>,
    pub detail_loading_suggestion: bool,
    pub detail_suggestion_error: Option<Seq<char>>,
    pub detail_patch_confirm_mode: bool,
    pub detail_llm_confirm_mode: bool,
    pub detail_patch_error: Option<Seq<char>>,
    pub patch_success: Option<(Seq<char>, usize, u64)>,
    pub running: bool,
    pub llm_available: bool,
    pub tick: u64,
}

impl View for App {
    type V = AppView;

    open spec fn view(&self) -> AppView {
        AppView {
            screen: self.screen,
            menu_selected: self.menu_selected,
            input_path: self.input_path@,
            input_mode: self.input_mode,
            scan_result: match self.scan_result {
                Some(r) => Some(r@),
                None => None,
            },
            scan_error: opt_text(self.scan_error),
            table_selected: self.table_selected,
            scroll_position: self.scroll_position,
            active_tab: self.active_tab,
            filter_severity: self.filter_severity,
            search_query: self.search_query@,
            search_mode: self.search_mode,
            cached_filtered_indices: self.cached_filtered_indices@,
            detail_issue: match self.detail_issue {
                Some(i) => Some(i@),
                None => None,
            },
            detail_scroll: self.detail_scroll,
            detail_suggestion: opt_text(self.detail_suggestion),
            detail_suggested_patch: match self.detail_suggested_patch {
                Some(p) => Some(p@),
                None => None,
            },
            detail_loading_suggestion: self.detail_loading_suggestion,
            detail_suggestion_error: opt_text(self.detail_suggestion_error),
            detail_patch_confirm_mode: self.detail_patch_confirm_mode,
            detail_llm_confirm_mode: self.detail_llm_confirm_mode,
            detail_patch_error: opt_text(self.detail_patch_error),
            patch_success: match self.patch_success {
                Some(p) => Some(p@),
                None => None,
            },
            running: self.running,
            llm_available: self.llm_available,
            tick: self.tick,
        }
    }
}

// ─── Filters ─────────────────────────────────────────────────────────────────

/// The issue's file name (last path component) contains the query, both
/// lower-cased; an empty query matches everything.
pub open spec fn matches_search(query: Seq<char>, file: Seq<char>) -> bool {
    query.len() == 0 || contains(
        lowercased(
            match file_name_of(file) {
                Some(n) => n,
                None => seq![],
            },
        ),
        lowercased(query),
    )
}

/// The issue has the chosen severity, if one is chosen.
pub open spec fn matches_severity(filter: Option<IssueSeverity>, s: IssueSeverity) -> bool {
    match filter {
        None => true,
        Some(f) => f == s,
    }
}

/// The issue belongs to the tab: tab 0 (and any tab past 5) shows every kind,
/// tabs 1 to 5 show wrong formats, missing dimensions, missing lazy loading,
/// oversized files and missing srcset.
pub open spec fn matches_tab(tab: usize, k: IssueKind) -> bool {
    if tab == 1 {
        k == IssueKind::WrongFormat
    } else if tab == 2 {
        k == IssueKind::MissingWidthHeight
    } else if tab == 3 {
        k == IssueKind::MissingLazyLoading
    } else if tab == 4 {
        k == IssueKind::OversizedFile
    } else if tab == 5 {
        k == IssueKind::MissingSrcset
    } else {
        true
    }
}

/// The issue passes the search, severity and tab filters.
pub open spec fn passes(query: Seq<char>, sev: Option<IssueSeverity>, tab: usize, i: IssueView) -> bool {
    matches_search(query, i.file) && matches_severity(sev, i.severity) && matches_tab(tab, i.kind)
}

/// The indices of the issues of `v` that pass the filters, in order.
pub open spec fn selected_indices(
    v: Seq<IssueView>,
    query: Seq<char>,
    sev: Option<IssueSeverity>,
    tab: usize,
) -> Seq<usize>
    decreases v.len(),
{
    if v.len() == 0 {
        seq![]
    } else {
        let rest = selected_indices(v.drop_last(), query, sev, tab);
        if passes(query, sev, tab, v.last()) {
            rest.push((v.len() - 1) as usize)
        } else {
            rest
        }
    }
}

/// The issues of `v` at the indices `idx` that are in range, in that order.
pub open spec fn pick(v: Seq<IssueView>, idx: Seq<usize>) -> Seq<IssueView>
    decreases idx.len(),
{
    if idx.len() == 0 {
        seq![]
    } else {
        let rest = pick(v, idx.drop_last());
        if idx.last() < v.len() {
            rest.push(v[idx.last() as int])
        } else {
            rest
        }
    }
}

/// The state with the filter cache rebuilt from the current filters.
pub open spec fn refiltered(a: AppView) -> AppView {
    AppView {
        cached_filtered_indices: match a.scan_result {
            Some(r) => selected_indices(r.issues, a.search_query, a.filter_severity, a.active_tab),
            None => seq![],
        },
        ..a
    }
}

/// The issues listed: those of the cache, or none without a result.
pub open spec fn shown(a: AppView) -> Seq<IssueView> {
    match a.scan_result {
        Some(r) => pick(r.issues, a.cached_filtered_indices),
        None => seq![],
    }
}

proof fn lemma_selected_bound(v: Seq<IssueView>, q: Seq<char>, s: Option<IssueSeverity>, t: usize)
    requires
        v.len() <= usize::MAX,
    ensures
        forall|k: int|
            0 <= k < selected_indices(v, q, s, t).len() ==> #[trigger] selected_indices(v, q, s, t)[k]
                < v.len(),
    decreases v.len(),
{
    if v.len() > 0 {
        let d = v.drop_last();
        lemma_selected_bound(d, q, s, t);
        let rest = selected_indices(d, q, s, t);
        let all = selected_indices(v, q, s, t);
        assert forall|k: int| 0 <= k < all.len() implies #[trigger] all[k] < v.len() by {
            if k < rest.len() {
                assert(all[k] == rest[k]);
            }
        }
    }
}

proof fn lemma_pick_prefix(v: Seq<IssueView>, idx: Seq<usize>)
    requires
        v.len() > 0,
        forall|k: int| 0 <= k < idx.len() ==> #[trigger] idx[k] < v.len() - 1,
    ensures
        pick(v, idx) == pick(v.drop_last(), idx),
    decreases idx.len(),
{
    if idx.len() > 0 {
        lemma_pick_prefix(v, idx.drop_last());
    }
}

/// The issues listed are exactly the scanned issues that pass the search,
/// severity and tab filters, in the order the scan found them.
pub proof fn listed_issues_are_filtered(
    v: Seq<IssueView>,
    query: Seq<char>,
    sev: Option<IssueSeverity>,
    tab: usize,
)
    requires
        v.len() <= usize::MAX,
    ensures
        pick(v, selected_indices(v, query, sev, tab)) == v.filter(
            |i: IssueView| passes(query, sev, tab, i),
        ),
    decreases v.len(),
{
    reveal(Seq::filter);
    let p = |i: IssueView| passes(query, sev, tab, i);
    if v.len() > 0 {
        let d = v.drop_last();
        listed_issues_are_filtered(d, query, sev, tab);
        lemma_selected_bound(d, query, sev, tab);
        let rest = selected_indices(d, query, sev, tab);
        lemma_pick_prefix(v, rest);
        assert(v.filter(p) == (if p(v.last()) {
            d.filter(p).push(v.last())
        } else {
            d.filter(p)
        }));
        if passes(query, sev, tab, v.last()) {
            let all = rest.push((v.len() - 1) as usize);
            assert(all.drop_last() =~= rest);
            assert(all.last() == (v.len() - 1) as usize);
            assert(pick(v, all) == pick(v, rest).push(v[v.len() - 1]));
        }
    } else {
        assert(v.filter(p) =~= v);
    }
}

/// With no search, no severity and the first tab, every issue is listed.
pub proof fn no_filter_lists_all(v: Seq<IssueView>)
    requires
        v.len() <= usize::MAX,
    ensures
        pick(v, selected_indices(v, seq![], None, 0)) == v,
    decreases v.len(),
{
    listed_issues_are_filtered(v, seq![], None, 0);
    lemma_filter_all(v, |i: IssueView| passes(seq![], None, 0, i));
}

proof fn lemma_filter_all(v: Seq<IssueView>, p: spec_fn(IssueView) -> bool)
    requires
        forall|i: IssueView| #[trigger] p(i),
    ensures
        v.filter(p) == v,
    decreases v.len(),
{
    reveal(Seq::filter);
    if v.len() > 0 {
        lemma_filter_all(v.drop_last(), p);
        assert(p(v.last()));
        assert(v.filter(p) == v.drop_last().filter(p).push(v.last()));
        assert(v.drop_last().push(v.last()) =~= v);
    } else {
        assert(v.filter(p) =~= v);
    }
}

fn matches_tab_exec(tab: usize, k: IssueKind) -> (b: bool)
    ensures
        b == matches_tab(tab, k),
{
    if tab == 1 {
        k == IssueKind::WrongFormat
    } else if tab == 2 {
        k == IssueKind::MissingWidthHeight
    } else if tab == 3 {
        k == IssueKind::MissingLazyLoading
    } else if tab == 4 {
        k == IssueKind::OversizedFile
    } else if tab == 5 {
        k == IssueKind::MissingSrcset
    } else {
        true
    }
}

fn matches_severity_exec(filter: Option<IssueSeverity>, s: IssueSeverity) -> (b: bool)
    ensures
        b == matches_severity(filter, s),
{
    match filter {
        None => true,
        Some(f) => f == s,
    }
}

/// Whether the issue file `file` matches the lower-cased query `lower_q`.
fn matches_search_exec(query_empty: bool, lower_q: &Vec<char>, file: &str) -> (b: bool)
    ensures
        query_empty ==> b,
        !query_empty ==> b == contains(
            lowercased(
                match file_name_of(file@) {
                    Some(n) => n,
                    None => seq![],
                },
            ),
            lower_q@,
        ),
{
    if query_empty {
        return true;
    }
    let name: Vec<char> = match path_file_name(file) {
        Some(n) => to_chars(n.as_str()),
        None => Vec::new(),
    };
    let lower = lowercase_chars(&name);
    contains_chars(&lower, lower_q)
}

impl App {
    /// The state at start-up: the menu with its first entry selected, the
    /// path `.`, no scan, no filters, no model client.
    pub fn new() -> (r: App)
        ensures
            r.screen == Screen::Menu,
            r.menu_selected == Some(0usize),
            r.input_path@ == "."@,
            !r.input_mode,
            r.scan_result is None,
            r.scan_error is None,
            r.table_selected == Some(0usize),
            r.scroll_position == 0,
            r.active_tab == 0,
            r.filter_severity is None,
            r.search_query@.len() == 0,
            !r.search_mode,
            r.cached_filtered_indices@.len() == 0,
            r.detail_issue is None,
            r.detail_scroll == 0,
            r.detail_suggestion is None,
            r.detail_suggested_patch is None,
            !r.detail_loading_suggestion,
            r.detail_suggestion_error is None,
            !r.detail_patch_confirm_mode,
            !r.detail_llm_confirm_mode,
            r.detail_patch_error is None,
            r.patch_success is None,
            r.running,
            !r.llm_available,
            r.tick == 0,
    {
        App {
            screen: Screen::Menu,
            menu_selected: Some(0),
            input_path: ".".to_owned(),
            input_mode: false,
            scan_result: None,
            scan_error: None,
            table_selected: Some(0),
            scroll_position: 0,
            active_tab: 0,
            filter_severity: None,
            search_query: String::new(),
            search_mode: false,
            cached_filtered_indices: Vec::new(),
            detail_issue: None,
            detail_scroll: 0,
            detail_suggestion: None,
            detail_suggested_patch: None,
            detail_loading_suggestion: false,
            detail_suggestion_error: None,
            detail_patch_confirm_mode: false,
            detail_llm_confirm_mode: false,
            detail_patch_error: None,
            patch_success: None,
            running: true,
            llm_available: false,
            tick: 0,
        }
    }

    /// Rebuilds the list of shown issues (their indices in the scan result)
    /// from the current search, severity and tab.
    pub fn update_filter_cache(&mut self)
        ensures
            final(self)@ == refiltered(old(self)@),
    {
        let indices: Vec<usize> = match &self.scan_result {
            None => Vec::new(),
            Some(result) => {
                let qv = to_chars(self.search_query.as_str());
                let query_empty = qv.len() == 0;
                let lower_q = lowercase_chars(&qv);
                let ghost v = issues_view(result.issues@);
                let ghost q = self.search_query@;
                let sev = self.filter_severity;
                let tab = self.active_tab;
                let mut out: Vec<usize> = Vec::new();
                let mut k: usize = 0;
                assert(v.take(0) =~= Seq::<IssueView>::empty());
                while k < result.issues.len()
                    invariant
                        k <= result.issues@.len(),
                        v == issues_view(result.issues@),
                        q == self.search_query@,
                        qv@ == q,
                        query_empty == (q.len() == 0),
                        lower_q@ == lowercased(q),
                        out@ == selected_indices(v.take(k as int), q, sev, tab),
                    decreases result.issues@.len() - k,
                {
                    let issue = &result.issues[k];
                    let ok = matches_search_exec(query_empty, &lower_q, issue.file.as_str())
                        && matches_severity_exec(sev, issue.severity) && matches_tab_exec(
                        tab,
                        issue.kind,
                    );
                    proof {
                        let t1 = v.take(k + 1);
                        assert(t1.drop_last() =~= v.take(k as int));
                        assert(t1.last() == issue@);
                        assert(ok == passes(q, sev, tab, issue@));
                    }
                    if ok {
                        out.push(k);
                    }
                    k = k + 1;
                }
                assert(v.take(k as int) =~= v);
                out
            },
        };
        self.cached_filtered_indices = indices;
    }

    /// The issues currently listed, in order (copies).
    pub fn filtered_issues(&self) -> (r: Vec<Issue>)
        ensures
            issues_view(r@) == shown(self@),
    {
        match &self.scan_result {
            None => {
                let r: Vec<Issue> = Vec::new();
                assert(issues_view(r@) =~= Seq::<IssueView>::empty());
                r
            },
            Some(result) => {
                let ghost v = issues_view(result.issues@);
                let idx = &self.cached_filtered_indices;
                let mut out: Vec<Issue> = Vec::new();
                let mut k: usize = 0;
                assert(idx@.take(0) =~= Seq::<usize>::empty());
                assert(issues_view(out@) =~= Seq::<IssueView>::empty());
                while k < idx.len()
                    invariant
                        k <= idx@.len(),
                        v == issues_view(result.issues@),
                        issues_view(out@) == pick(v, idx@.take(k as int)),
                    decreases idx@.len() - k,
                {
                    let i = idx[k];
                    proof {
                        let t1 = idx@.take(k + 1);
                        assert(t1.drop_last() =~= idx@.take(k as int));
                        assert(t1.last() == i);
                    }
                    if i < result.issues.len() {
                        let item = result.issues[i].duplicate();
                        let ghost prev = issues_view(out@);
                        out.push(item);
                        assert(issues_view(out@) =~= prev.push(item@));
                    }
                    k = k + 1;
                }
                assert(idx@.take(k as int) =~= idx@);
                out
            },
        }
    }
}

// ─── Events and actions ──────────────────────────────────────────────────────

/// A key press, as the handlers distinguish them.
#[derive(Debug, Clone, Copy, PartialEq, Eq, Structural)]
pub enum Key {
    Char(char),
    Up,
    Down,
    Enter,
    Esc,
    Backspace,
    Tab,
    BackTab,
    Other,
}

/// Work a handler asks the caller to start.
#[derive(Debug, Clone)]
pub enum Action {
    Nothing,
    /// Scan the directory `input_path` in the background.
    StartScan,
    /// Save the scan result as a JSON report.
    ExportReport,
    /// Copy this file path to the clipboard.
    CopyPath(String),
    /// Ask the model for a fix of this issue.
    AskLlm(Issue),
    /// Apply this patch to the file of this issue, then report the outcome
    /// with `patch_finished`.
    ApplyPatch(Issue, SuggestedPatch),
    /// Scan again in the background, staying on the current screen.
    Rescan,
}

/// The mathematical content of an `Action`.
pub ghost enum ActionView {
    Nothing,
    StartScan,
    ExportReport,
    CopyPath(Seq<char>),
    AskLlm(IssueView),
    ApplyPatch(IssueView, (Seq<char>, Seq<char>)),
    Rescan,
}

impl View for Action {
    type V = ActionView;

    open spec fn view(&self) -> ActionView {
        match self {
            Action::Nothing => ActionView::Nothing,
            Action::StartScan => ActionView::StartScan,
            Action::ExportReport => ActionView::ExportReport,
            Action::CopyPath(s) => ActionView::CopyPath(s@),
            Action::AskLlm(i) => ActionView::AskLlm(i@),
            Action::ApplyPatch(i, p) => ActionView::ApplyPatch(i@, p@),
            Action::Rescan => ActionView::Rescan,
        }
    }
}

/// `n - 1`, or 0 for 0.
pub open spec fn dec(n: usize) -> usize {
    if n > 0 {
        (n - 1) as usize
    } else {
        0
    }
}

/// The selected row, 0 when none is.
pub open spec fn sel(o: Option<usize>) -> usize {
    match o {
        Some(i) => i,
        None => 0,
    }
}

/// Text without its last character (unchanged when empty), as `String::pop`
/// leaves it.
pub open spec fn popped(s: Seq<char>) -> Seq<char> {
    if s.len() > 0 {
        s.drop_last()
    } else {
        s
    }
}

/// The state when a scan starts.
pub open spec fn begin_scan(a: AppView) -> AppView {
    AppView { screen: Screen::Scanning, scan_result: None, scan_error: None, ..a }
}

// ─── Menu ────────────────────────────────────────────────────────────────────

/// The menu while the path is being edited.
pub open spec fn menu_input_next(a: AppView, key: Key) -> AppView {
    match key {
        Key::Enter => if trimmed(a.input_path).len() == 0 {
            AppView { scan_error: Some("Please enter a path to scan."@), ..a }
        } else {
            begin_scan(AppView { input_mode: false, ..a })
        },
        Key::Esc => AppView { input_mode: false, ..a },
        Key::Backspace => AppView { input_path: popped(a.input_path), ..a },
        Key::Char(c) => AppView { input_path: a.input_path.push(c), ..a },
        _ => a,
    }
}

/// The menu after `key` (`ctrl` when Control is held): `q`, Esc, Ctrl-Q and
/// Ctrl-C quit (the menu has nothing to go back to),
/// arrows or `k`/`j` move between its two entries, Enter or space edits the
/// path (first entry) or quits (second).
pub open spec fn menu_next(a: AppView, key: Key, ctrl: bool) -> AppView {
    if a.input_mode {
        menu_input_next(a, key)
    } else if (ctrl && (key == Key::Char('q') || key == Key::Char('c'))) || key == Key::Char('q')
        || key == Key::Esc {
        AppView { running: false, ..a }
    } else if key == Key::Up || key == Key::Char('k') {
        AppView { menu_selected: Some(dec(sel(a.menu_selected))), ..a }
    } else if key == Key::Down || key == Key::Char('j') {
        AppView {
            menu_selected: Some(
                if sel(a.menu_selected) + 1 < 1 {
                    (sel(a.menu_selected) + 1) as usize
                } else {
                    1usize
                },
            ),
            ..a
        }
    } else if key == Key::Enter || key == Key::Char(' ') {
        if a.menu_selected == Some(0usize) {
            AppView { input_mode: true, ..a }
        } else if a.menu_selected == Some(1usize) {
            AppView { running: false, ..a }
        } else {
            a
        }
    } else {
        a
    }
}

/// The menu starts a scan when a non-blank path is confirmed.
pub open spec fn menu_action(a: AppView, key: Key, ctrl: bool) -> ActionView {
    if a.input_mode && key == Key::Enter && trimmed(a.input_path).len() > 0 {
        ActionView::StartScan
    } else {
        ActionView::Nothing
    }
}

/// `s` without its last character.
fn pop_text(s: &String) -> (r: String)
    ensures
        r@ == popped(s@),
{
    let v = to_chars(s.as_str());
    if v.len() == 0 {
        return string_of(&v);
    }
    let w = crate::text::copy_range(&v, 0, v.len() - 1);
    string_of(&w)
}

impl App {
    /// Shows the scanning screen for a scan that starts now.
    pub fn start_scan(&mut self)
        ensures
            final(self)@ == begin_scan(old(self)@),
    {
        self.screen = Screen::Scanning;
        self.scan_result = None;
        self.scan_error = None;
    }

}

// ─── Results ─────────────────────────────────────────────────────────────────

/// The state with the filter cache rebuilt and the first row selected.
pub open spec fn refiltered_top(a: AppView) -> AppView {
    AppView { table_selected: Some(0usize), ..refiltered(a) }
}

/// The results list while a search is typed: Enter or Esc end the search,
/// Backspace and characters edit the query (the list is filtered again and
/// its first row selected).
pub open spec fn search_next(a: AppView, key: Key) -> AppView {
    match key {
        Key::Enter => AppView { search_mode: false, ..a },
        Key::Esc => AppView { search_mode: false, ..a },
        Key::Backspace => refiltered_top(AppView { search_query: popped(a.search_query), ..a }),
        Key::Char(c) => refiltered_top(AppView { search_query: a.search_query.push(c), ..a }),
        _ => a,
    }
}

/// The results list after `key`: `q`/Esc back to the menu (dropping the
/// result), arrows or `k`/`j` move the selection within the list, Enter
/// opens the selected issue, Tab / Shift-Tab cycle the six category tabs,
/// `1`–`4` choose all / error / warning / info severities, `f` or `/` start a
/// search. `s` and `c` change nothing here (see `results_action`).
pub open spec fn results_next(a: AppView, key: Key) -> AppView {
    if a.search_mode {
        search_next(a, key)
    } else {
        let len = shown(a).len();
        let cur = sel(a.table_selected);
        if key == Key::Char('q') || key == Key::Esc {
            AppView { screen: Screen::Menu, scan_result: None, ..a }
        } else if key == Key::Up || key == Key::Char('k') {
            AppView { table_selected: Some(dec(cur)), scroll_position: dec(cur), ..a }
        } else if key == Key::Down || key == Key::Char('j') {
            let last: int = if len > 0 {
                len - 1
            } else {
                0
            };
            let next: usize = if cur + 1 < last {
                (cur + 1) as usize
            } else {
                last as usize
            };
            AppView { table_selected: Some(next), scroll_position: next, ..a }
        } else if key == Key::Enter {
            match a.table_selected {
                Some(i) => if i < len {
                    AppView {
                        detail_issue: Some(shown(a)[i as int]),
                        detail_scroll: 0,
                        screen: Screen::Detail,
                        ..a
                    }
                } else {
                    a
                },
                None => a,
            }
        } else if key == Key::Tab {
            refiltered_top(AppView { active_tab: ((a.active_tab + 1) % 6) as usize, ..a })
        } else if key == Key::BackTab {
            refiltered_top(AppView { active_tab: ((a.active_tab + 5) % 6) as usize, ..a })
        } else if key == Key::Char('1') {
            refiltered(AppView { filter_severity: None, ..a })
        } else if key == Key::Char('2') {
            refiltered(AppView { filter_severity: Some(IssueSeverity::Error), ..a })
        } else if key == Key::Char('3') {
            refiltered(AppView { filter_severity: Some(IssueSeverity::Warning), ..a })
        } else if key == Key::Char('4') {
            refiltered(AppView { filter_severity: Some(IssueSeverity::Info), ..a })
        } else if key == Key::Char('f') || key == Key::Char('/') {
            AppView { search_mode: true, ..a }
        } else {
            a
        }
    }
}

/// The results list asks to save the report on `s` and to copy the selected
/// issue's file path on `c`.
pub open spec fn results_action(a: AppView, key: Key) -> ActionView {
    if a.search_mode {
        ActionView::Nothing
    } else if key == Key::Char('s') {
        ActionView::ExportReport
    } else if key == Key::Char('c') {
        match a.table_selected {
            Some(i) => if i < shown(a).len() {
                ActionView::CopyPath(shown(a)[i as int].file)
            } else {
                ActionView::Nothing
            },
            None => ActionView::Nothing,
        }
    } else {
        ActionView::Nothing
    }
}

/// The state after a failed report export: back to the menu with the error.
pub open spec fn export_failed(a: AppView, e: Seq<char>) -> AppView {
    AppView { scan_error: Some("Export failed: "@ + e), screen: Screen::Menu, ..a }
}

impl App {
    fn handle_results_search(&mut self, key: Key)
        requires
            old(self).search_mode,
        ensures
            final(self)@ == search_next(old(self)@, key),
    {
        match key {
            Key::Enter => {
                self.search_mode = false;
            },
            Key::Esc => {
                self.search_mode = false;
            },
            Key::Backspace => {
                self.search_query = pop_text(&self.search_query);
                self.update_filter_cache();
                self.table_selected = Some(0);
            },
            Key::Char(c) => {
                push_char(&mut self.search_query, c);
                self.update_filter_cache();
                self.table_selected = Some(0);
            },
            _ => {},
        }
    }

    fn results_filter(&mut self, key: Key)
        requires
            !old(self).search_mode,
            old(self).active_tab <= usize::MAX - 5,
            key == Key::Tab || key == Key::BackTab || key == Key::Char('1') || key == Key::Char('2')
                || key == Key::Char('3') || key == Key::Char('4'),
        ensures
            final(self)@ == results_next(old(self)@, key),
    {
        if key == Key::Tab {
            self.active_tab = (self.active_tab + 1) % 6;
            self.update_filter_cache();
            self.table_selected = Some(0);
        } else if key == Key::BackTab {
            self.active_tab = (self.active_tab + 5) % 6;
            self.update_filter_cache();
            self.table_selected = Some(0);
        } else if key == Key::Char('1') {
            self.filter_severity = None;
            self.update_filter_cache();
        } else if key == Key::Char('2') {
            self.filter_severity = Some(IssueSeverity::Error);
            self.update_filter_cache();
        } else if key == Key::Char('3') {
            self.filter_severity = Some(IssueSeverity::Warning);
            self.update_filter_cache();
        } else {
            self.filter_severity = Some(IssueSeverity::Info);
            self.update_filter_cache();
        }
    }


    /// Records the outcome of saving the report: on failure, back to the
    /// menu with `Export failed: ` and the error.
    pub fn export_finished(&mut self, result: Result<(), String>)
        ensures
            result matches Err(e) ==> final(self)@ == export_failed(old(self)@, e@),
            result is Ok ==> final(self)@ == old(self)@,
    {
        match result {
            Ok(()) => {},
            Err(e) => {
                let mut msg = to_chars("Export failed: ");
                push_all(&mut msg, &to_chars(e.as_str()));
                self.scan_error = Some(string_of(&msg));
                self.screen = Screen::Menu;
            },
        }
    }
}

// ─── Detail ──────────────────────────────────────────────────────────────────

/// The message for format issues, which cannot be patched.
pub open spec fn format_refusal() -> Seq<char> {
    "Patching is not supported for format conversion issues."@
}

/// The state after leaving the detail view: back to the results, every
/// detail, suggestion and patch state cleared.
pub open spec fn reset_detail(a: AppView) -> AppView {
    AppView {
        screen: Screen::Results,
        detail_issue: None,
        detail_suggestion: None,
        detail_suggested_patch: None,
        detail_suggestion_error: None,
        detail_loading_suggestion: false,
        detail_patch_confirm_mode: false,
        detail_patch_error: None,
        detail_scroll: 0,
        patch_success: None,
        ..a
    }
}

/// The issue shown is a format issue.
pub open spec fn is_format_issue(a: AppView) -> bool {
    a.detail_issue matches Some(i) && i.kind == IssueKind::WrongFormat
}

/// The model is asked about the issue shown: refused for format issues,
/// ignored while a request runs or without an issue, an error without a
/// configured model; otherwise a request starts and the old answer is cleared.
pub open spec fn ask_next(a: AppView) -> AppView {
    if is_format_issue(a) {
        AppView { detail_suggestion_error: Some(format_refusal()), ..a }
    } else if a.detail_loading_suggestion || a.detail_issue is None {
        a
    } else if !a.llm_available {
        AppView {
            detail_suggestion_error: Some("LLM provider not configured. Check your .env file."@),
            ..a
        }
    } else {
        AppView {
            detail_loading_suggestion: true,
            detail_suggestion: None,
            detail_suggested_patch: None,
            detail_suggestion_error: None,
            detail_scroll: 0,
            ..a
        }
    }
}

/// The request to the model starts exactly when `ask_next` starts it.
pub open spec fn ask_starts(a: AppView) -> bool {
    !is_format_issue(a) && !a.detail_loading_suggestion && a.detail_issue is Some && a.llm_available
}

/// The patch preview is asked for: refused for format issues, opened when a
/// patch is available, else an error saying to ask the model first.
pub open spec fn apply_next(a: AppView) -> AppView {
    if is_format_issue(a) {
        AppView { detail_patch_error: Some(format_refusal()), ..a }
    } else if a.detail_suggested_patch is Some {
        AppView { detail_patch_confirm_mode: true, detail_patch_error: None, detail_scroll: 0, ..a }
    } else {
        AppView {
            detail_patch_error: Some("No patch available. Press 'a' to ask the LLM first."@),
            ..a
        }
    }
}

/// The patch preview after `key`: `y` applies the patch (the state changes
/// when the outcome is reported, see `patch_finished_next`; without an issue
/// or a patch the failure is shown at once), `n`/Esc/`q`/Backspace close it.
pub open spec fn confirm_next(a: AppView, key: Key) -> AppView {
    if key == Key::Char('y') {
        if a.detail_issue is None {
            AppView {
                detail_patch_error: Some("Patch failed: no issue"@),
                detail_patch_confirm_mode: false,
                ..a
            }
        } else if a.detail_suggested_patch is None {
            AppView {
                detail_patch_error: Some("Patch failed: no patch"@),
                detail_patch_confirm_mode: false,
                ..a
            }
        } else {
            a
        }
    } else if key == Key::Char('n') || key == Key::Esc || key == Key::Char('q') || key
        == Key::Backspace {
        AppView { detail_patch_confirm_mode: false, ..a }
    } else {
        a
    }
}

/// The detail view after `key`: any key dismisses the patch-applied overlay;
/// arrows or `k`/`j` scroll; in the patch preview see `confirm_next`;
/// otherwise Esc/`q`/Backspace go back, `a` asks the model, `p` previews the
/// patch.
pub open spec fn detail_next(a: AppView, key: Key) -> AppView {
    if a.patch_success is Some {
        reset_detail(a)
    } else if key == Key::Up || key == Key::Char('k') {
        AppView {
            detail_scroll: if a.detail_scroll > 0 {
                (a.detail_scroll - 1) as u16
            } else {
                0u16
            },
            ..a
        }
    } else if key == Key::Down || key == Key::Char('j') {
        AppView {
            detail_scroll: if a.detail_scroll < u16::MAX {
                (a.detail_scroll + 1) as u16
            } else {
                u16::MAX
            },
            ..a
        }
    } else if a.detail_patch_confirm_mode {
        confirm_next(a, key)
    } else if key == Key::Esc || key == Key::Char('q') || key == Key::Backspace {
        reset_detail(a)
    } else if key == Key::Char('a') {
        ask_next(a)
    } else if key == Key::Char('p') {
        apply_next(a)
    } else {
        a
    }
}

/// The work the detail view starts: applying the patch on `y` in the preview
/// (with an issue and a patch), asking the model on `a` (see `ask_starts`).
pub open spec fn detail_action(a: AppView, key: Key) -> ActionView {
    if a.patch_success is Some || key == Key::Up || key == Key::Char('k') || key == Key::Down || key
        == Key::Char('j') {
        ActionView::Nothing
    } else if a.detail_patch_confirm_mode {
        if key == Key::Char('y') && a.detail_issue is Some && a.detail_suggested_patch is Some {
            ActionView::ApplyPatch(a.detail_issue->0, a.detail_suggested_patch->0)
        } else {
            ActionView::Nothing
        }
    } else if key == Key::Char('a') && ask_starts(a) {
        ActionView::AskLlm(a.detail_issue->0)
    } else {
        ActionView::Nothing
    }
}

/// The state once applying the patch succeeded (at `now_ms`) or failed with
/// `err`: on success the suggestion is cleared and the overlay names the
/// issue's file and line; on failure the preview closes with the error.
pub open spec fn patch_finished_next(a: AppView, err: Option<Seq<char>>, now_ms: u64) -> AppView {
    match err {
        None => AppView {
            detail_suggestion: None,
            detail_suggested_patch: None,
            detail_patch_error: None,
            detail_patch_confirm_mode: false,
            patch_success: Some(
                match a.detail_issue {
                    Some(i) => (i.file, i.line as usize, now_ms),
                    None => (seq![], 0usize, now_ms),
                },
            ),
            ..a
        },
        Some(e) => AppView {
            detail_patch_error: Some("Patch failed: "@ + e),
            detail_patch_confirm_mode: false,
            ..a
        },
    }
}

/// The state once a background scan reported `outcome` (`None`: nothing yet).
/// A result is stored and filtered; the results list is shown unless the
/// detail view is open (a scan after a patch). An error returns to the menu.
pub open spec fn scan_polled(a: AppView, outcome: Option<Result<ScanView, Seq<char>>>) -> AppView {
    match outcome {
        None => a,
        Some(Ok(r)) => {
            let b = refiltered(AppView { scan_result: Some(r), ..a });
            if a.screen != Screen::Detail {
                AppView { screen: Screen::Results, table_selected: Some(0usize), ..b }
            } else {
                b
            }
        },
        Some(Err(e)) => AppView { scan_error: Some(e), screen: Screen::Menu, ..a },
    }
}

/// The state once the model request reported `outcome` (`None`: nothing yet).
pub open spec fn llm_polled(
    a: AppView,
    outcome: Option<Result<(Seq<char>, Option<(Seq<char>, Seq<char>)>), Seq<char>>>,
) -> AppView {
    match outcome {
        None => a,
        Some(Ok(s)) => AppView {
            detail_loading_suggestion: false,
            detail_suggestion: Some(s.0),
            detail_suggested_patch: s.1,
            detail_suggestion_error: None,
            ..a
        },
        Some(Err(e)) => AppView {
            detail_loading_suggestion: false,
            detail_suggestion_error: Some(e),
            detail_suggestion: None,
            detail_suggested_patch: None,
            ..a
        },
    }
}

/// Four seconds after a patch was applied the overlay closes by itself and
/// the results list is shown, every detail state cleared.
pub open spec fn patch_success_polled(a: AppView, now_ms: u64) -> AppView {
    match a.patch_success {
        Some(p) => if now_ms >= p.2 + 4000 {
            AppView {
                patch_success: None,
                screen: Screen::Results,
                detail_issue: None,
                detail_suggestion: None,
                detail_suggested_patch: None,
                detail_suggestion_error: None,
                detail_loading_suggestion: false,
                detail_patch_confirm_mode: false,
                detail_llm_confirm_mode: false,
                detail_patch_error: None,
                detail_scroll: 0,
                ..a
            }
        } else {
            a
        },
        None => a,
    }
}


impl App {
    /// Leaves the detail view for the results list, clearing its state.
    pub fn reset_detail(&mut self)
        ensures
            final(self)@ == reset_detail(old(self)@),
    {
        self.screen = Screen::Results;
        self.detail_issue = None;
        self.detail_suggestion = None;
        self.detail_suggested_patch = None;
        self.detail_suggestion_error = None;
        self.detail_loading_suggestion = false;
        self.detail_patch_confirm_mode = false;
        self.detail_patch_error = None;
        self.detail_scroll = 0;
        self.patch_success = None;
    }

    fn handle_ask_llm(&mut self) -> (act: Action)
        ensures
            final(self)@ == ask_next(old(self)@),
            ask_starts(old(self)@) ==> act@ == ActionView::AskLlm(old(self)@.detail_issue->0),
            !ask_starts(old(self)@) ==> act@ == ActionView::Nothing,
    {
        let is_format = match &self.detail_issue {
            Some(i) => i.kind == IssueKind::WrongFormat,
            None => false,
        };
        if is_format {
            self.detail_suggestion_error = Some(
                "Patching is not supported for format conversion issues.".to_owned(),
            );
            return Action::Nothing;
        }
        if self.detail_loading_suggestion {
            return Action::Nothing;
        }
        let issue = match &self.detail_issue {
            Some(i) => i.duplicate(),
            None => {
                return Action::Nothing;
            },
        };
        if !self.llm_available {
            self.detail_suggestion_error = Some(
                "LLM provider not configured. Check your .env file.".to_owned(),
            );
            return Action::Nothing;
        }
        self.detail_loading_suggestion = true;
        self.detail_suggestion = None;
        self.detail_suggested_patch = None;
        self.detail_suggestion_error = None;
        self.detail_scroll = 0;
        Action::AskLlm(issue)
    }

    fn handle_apply_patch(&mut self)
        ensures
            final(self)@ == apply_next(old(self)@),
    {
        let is_format = match &self.detail_issue {
            Some(i) => i.kind == IssueKind::WrongFormat,
            None => false,
        };
        if is_format {
            self.detail_patch_error = Some(
                "Patching is not supported for format conversion issues.".to_owned(),
            );
        } else if self.detail_suggested_patch.is_some() {
            self.detail_patch_confirm_mode = true;
            self.detail_patch_error = None;
            self.detail_scroll = 0;
        } else {
            self.detail_patch_error = Some(
                "No patch available. Press 'a' to ask the LLM first.".to_owned(),
            );
        }
    }

    fn handle_patch_confirm(&mut self, key: Key) -> (act: Action)
        requires
            old(self).detail_patch_confirm_mode,
        ensures
            final(self)@ == confirm_next(old(self)@, key),
            (key == Key::Char('y') && old(self)@.detail_issue is Some
                && old(self)@.detail_suggested_patch is Some) ==> act@ == ActionView::ApplyPatch(
                old(self)@.detail_issue->0,
                old(self)@.detail_suggested_patch->0,
            ),
            !(key == Key::Char('y') && old(self)@.detail_issue is Some
                && old(self)@.detail_suggested_patch is Some) ==> act@ == ActionView::Nothing,
    {
        if key == Key::Char('y') {
            match (&self.detail_issue, &self.detail_suggested_patch) {
                (Some(i), Some(p)) => {
                    return Action::ApplyPatch(i.duplicate(), p.duplicate());
                },
                (None, _) => {
                    self.detail_patch_error = Some("Patch failed: no issue".to_owned());
                    self.detail_patch_confirm_mode = false;
                },
                (Some(_), None) => {
                    self.detail_patch_error = Some("Patch failed: no patch".to_owned());
                    self.detail_patch_confirm_mode = false;
                },
            }
        } else if key == Key::Char('n') || key == Key::Esc || key == Key::Char('q') || key
            == Key::Backspace {
            self.detail_patch_confirm_mode = false;
        }
        Action::Nothing
    }


    /// Records the outcome of applying the patch (`Err` with the error's text
    /// on failure) at `now_ms`; after a success the caller rescans.
    pub fn patch_finished(&mut self, result: Result<(), String>, now_ms: u64) -> (act: Action)
        ensures
            final(self)@ == patch_finished_next(
                old(self)@,
                match result {
                    Ok(()) => None,
                    Err(e) => Some(e@),
                },
                now_ms,
            ),
            result is Ok ==> act@ == ActionView::Rescan,
            result is Err ==> act@ == ActionView::Nothing,
    {
        match result {
            Ok(()) => {
                let (file, line) = match &self.detail_issue {
                    Some(i) => (copy_text(&i.file), i.line),
                    None => (String::new(), 0),
                };
                self.detail_suggestion = None;
                self.detail_suggested_patch = None;
                self.detail_patch_error = None;
                self.detail_patch_confirm_mode = false;
                self.patch_success = Some(PatchSuccess { file, line, at_ms: now_ms });
                Action::Rescan
            },
            Err(e) => {
                let mut msg = to_chars("Patch failed: ");
                push_all(&mut msg, &to_chars(e.as_str()));
                self.detail_patch_error = Some(string_of(&msg));
                self.detail_patch_confirm_mode = false;
                Action::Nothing
            },
        }
    }

    /// Takes in what a background scan reported, if anything.
    pub fn poll_scan(&mut self, outcome: Option<Result<ScanResult, String>>)
        ensures
            final(self)@ == scan_polled(
                old(self)@,
                match outcome {
                    None => None,
                    Some(Ok(r)) => Some(Ok(r@)),
                    Some(Err(e)) => Some(Err(e@)),
                },
            ),
    {
        match outcome {
            None => {},
            Some(Ok(res)) => {
                let on_detail = self.screen == Screen::Detail;
                self.scan_result = Some(res);
                self.update_filter_cache();
                if !on_detail {
                    self.screen = Screen::Results;
                    self.table_selected = Some(0);
                }
            },
            Some(Err(e)) => {
                self.scan_error = Some(e);
                self.screen = Screen::Menu;
            },
        }
    }

    /// Takes in what the model request reported, if anything.
    pub fn poll_llm(&mut self, outcome: Option<Result<LlmSuggestion, String>>)
        ensures
            final(self)@ == llm_polled(
                old(self)@,
                match outcome {
                    None => None,
                    Some(Ok(s)) => Some(Ok(s@)),
                    Some(Err(e)) => Some(Err(e@)),
                },
            ),
    {
        match outcome {
            None => {},
            Some(Ok(suggestion)) => {
                self.detail_loading_suggestion = false;
                self.detail_suggestion = Some(suggestion.text);
                self.detail_suggested_patch = suggestion.patch;
                self.detail_suggestion_error = None;
            },
            Some(Err(e)) => {
                self.detail_loading_suggestion = false;
                self.detail_suggestion_error = Some(e);
                self.detail_suggestion = None;
                self.detail_suggested_patch = None;
            },
        }
    }

    /// Closes the patch-applied overlay once four seconds have passed by
    /// `now_ms` (same clock as `patch_finished`).
    pub fn poll_patch_success(&mut self, now_ms: u64)
        ensures
            final(self)@ == patch_success_polled(old(self)@, now_ms),
    {
        let expired = match &self.patch_success {
            Some(p) => p.at_ms <= u64::MAX - 4000 && now_ms >= p.at_ms + 4000,
            None => false,
        };
        if expired {
            self.patch_success = None;
            self.screen = Screen::Results;
            self.detail_issue = None;
            self.detail_suggestion = None;
            self.detail_suggested_patch = None;
            self.detail_suggestion_error = None;
            self.detail_loading_suggestion = false;
            self.detail_patch_confirm_mode = false;
            self.detail_llm_confirm_mode = false;
            self.detail_patch_error = None;
            self.detail_scroll = 0;
        }
    }
}

// ─── Key handlers ────────────────────────────────────────────────────────────

/// Reacts to a key on the menu; a confirmed path starts a scan.
pub fn handle_menu(app: &mut App, key: Key, ctrl: bool) -> (act: Action)
    requires
        sel(old(app).menu_selected) < usize::MAX,
    ensures
        final(app)@ == menu_next(old(app)@, key, ctrl),
        act@ == menu_action(old(app)@, key, ctrl),
{
    if app.input_mode {
        match key {
            Key::Enter => {
                let p = to_chars(app.input_path.as_str());
                let t = trim_chars(&p);
                if t.len() == 0 {
                    app.scan_error = Some("Please enter a path to scan.".to_owned());
                    return Action::Nothing;
                } else {
                    app.input_mode = false;
                    app.start_scan();
                    return Action::StartScan;
                }
            },
            Key::Esc => {
                app.input_mode = false;
            },
            Key::Backspace => {
                app.input_path = pop_text(&app.input_path);
            },
            Key::Char(c) => {
                push_char(&mut app.input_path, c);
            },
            _ => {},
        }
        return Action::Nothing;
    }
    let cur = match app.menu_selected {
        Some(i) => i,
        None => 0,
    };
    if (ctrl && (key == Key::Char('q') || key == Key::Char('c'))) || key == Key::Char('q') || key
        == Key::Esc {
        app.running = false;
    } else if key == Key::Up || key == Key::Char('k') {
        app.menu_selected = Some(if cur > 0 { cur - 1 } else { 0 });
    } else if key == Key::Down || key == Key::Char('j') {
        app.menu_selected = Some(if cur + 1 < 1 { cur + 1 } else { 1 });
    } else if key == Key::Enter || key == Key::Char(' ') {
        if app.menu_selected == Some(0usize) {
            app.input_mode = true;
        } else if app.menu_selected == Some(1usize) {
            app.running = false;
        }
    }
    Action::Nothing
}

/// Reacts to a key on the results list.
pub fn handle_results(app: &mut App, key: Key) -> (act: Action)
    requires
        sel(old(app).table_selected) < usize::MAX,
        old(app).active_tab <= usize::MAX - 5,
    ensures
        final(app)@ == results_next(old(app)@, key),
        act@ == results_action(old(app)@, key),
{
    if app.search_mode {
        app.handle_results_search(key);
        return Action::Nothing;
    }
    let issues = app.filtered_issues();
    let len = issues.len();
    let cur = match app.table_selected {
        Some(i) => i,
        None => 0,
    };
    if key == Key::Char('q') || key == Key::Esc {
        app.screen = Screen::Menu;
        app.scan_result = None;
    } else if key == Key::Up || key == Key::Char('k') {
        let next = if cur > 0 {
            cur - 1
        } else {
            0
        };
        app.table_selected = Some(next);
        app.scroll_position = next;
    } else if key == Key::Down || key == Key::Char('j') {
        let last = if len > 0 {
            len - 1
        } else {
            0
        };
        let next = if cur + 1 < last {
            cur + 1
        } else {
            last
        };
        app.table_selected = Some(next);
        app.scroll_position = next;
    } else if key == Key::Enter {
        match app.table_selected {
            Some(i) => {
                if i < len {
                    let issue = issues[i].duplicate();
                    assert(issue@ == shown(old(app)@)[i as int]);
                    app.detail_issue = Some(issue);
                    app.detail_scroll = 0;
                    app.screen = Screen::Detail;
                }
            },
            None => {},
        }
    } else if key == Key::Tab || key == Key::BackTab || key == Key::Char('1') || key == Key::Char(
        '2',
    ) || key == Key::Char('3') || key == Key::Char('4') {
        app.results_filter(key);
    } else if key == Key::Char('s') {
        return Action::ExportReport;
    } else if key == Key::Char('f') || key == Key::Char('/') {
        app.search_mode = true;
    } else if key == Key::Char('c') {
        match app.table_selected {
            Some(i) => {
                if i < len {
                    let file = issues[i].file.clone();
                    assert(file@ == shown(old(app)@)[i as int].file);
                    return Action::CopyPath(file);
                }
            },
            None => {},
        }
    }
    Action::Nothing
}

/// Reacts to a key on the detail view of an issue.
pub fn handle_detail(app: &mut App, key: Key) -> (act: Action)
    ensures
        final(app)@ == detail_next(old(app)@, key),
        act@ == detail_action(old(app)@, key),
{
    if app.patch_success.is_some() {
        app.reset_detail();
        return Action::Nothing;
    }
    if key == Key::Up || key == Key::Char('k') {
        app.detail_scroll = if app.detail_scroll > 0 {
            app.detail_scroll - 1
        } else {
            0
        };
        return Action::Nothing;
    }
    if key == Key::Down || key == Key::Char('j') {
        app.detail_scroll = if app.detail_scroll < u16::MAX {
            app.detail_scroll + 1
        } else {
            u16::MAX
        };
        return Action::Nothing;
    }
    if app.detail_patch_confirm_mode {
        return app.handle_patch_confirm(key);
    }
    if key == Key::Esc || key == Key::Char('q') || key == Key::Backspace {
        app.reset_detail();
        Action::Nothing
    } else if key == Key::Char('a') {
        app.handle_ask_llm()
    } else if key == Key::Char('p') {
        app.handle_apply_patch();
        Action::Nothing
    } else {
        Action::Nothing
    }
}

// ─── Laws ────────────────────────────────────────────────────────────────────

/// Tab followed by Shift-Tab returns to the same category tab and lists the
/// same issues, with the first row selected.
pub proof fn tab_then_back_tab_restores(a: AppView)
    requires
        !a.search_mode,
        a.active_tab < 6,
    ensures
        ({
            let b = results_next(results_next(a, Key::Tab), Key::BackTab);
            &&& b.active_tab == a.active_tab
            &&& b.cached_filtered_indices == refiltered(a).cached_filtered_indices
            &&& b.table_selected == Some(0usize)
        }),
{
    let t = a.active_tab;
    let t1 = ((t + 1) % 6) as usize;
    assert(t1 < 6);
    assert(((t1 + 5) % 6) as usize == t) by {
        if t < 5 {
            assert(t1 == t + 1);
        } else {
            assert(t1 == 0);
        }
    }
}

/// Typing a character into the search and deleting it restores the query and
/// the list.
pub proof fn search_type_then_delete_restores(a: AppView, c: char)
    requires
        a.search_mode,
    ensures
        ({
            let b = results_next(results_next(a, Key::Char(c)), Key::Backspace);
            &&& b.search_query == a.search_query
            &&& b.cached_filtered_indices == refiltered(a).cached_filtered_indices
        }),
{
    assert(a.search_query.push(c).drop_last() =~= a.search_query);
}

/// The severity a key `2`, `3` or `4` selects.
pub open spec fn severity_key(key: Key) -> Option<IssueSeverity> {
    if key == Key::Char('2') {
        Some(IssueSeverity::Error)
    } else if key == Key::Char('3') {
        Some(IssueSeverity::Warning)
    } else if key == Key::Char('4') {
        Some(IssueSeverity::Info)
    } else {
        None
    }
}

/// After choosing a severity with `2`, `3` or `4`, every issue listed has
/// that severity.
pub proof fn severity_choice_lists_only_it(a: AppView, key: Key)
    requires
        !a.search_mode,
        severity_key(key) is Some,
        a.scan_result matches Some(r) && r.issues.len() <= usize::MAX,
    ensures
        forall|k: int|
            0 <= k < shown(results_next(a, key)).len() ==> Some(
                #[trigger] shown(results_next(a, key))[k].severity,
            ) == severity_key(key),
{
    let b = results_next(a, key);
    let r = a.scan_result->0;
    let p = |i: IssueView| passes(b.search_query, b.filter_severity, b.active_tab, i);
    listed_issues_are_filtered(r.issues, b.search_query, b.filter_severity, b.active_tab);
    assert forall|k: int| 0 <= k < shown(b).len() implies Some(#[trigger] shown(b)[k].severity)
        == severity_key(key) by {
        r.issues.lemma_filter_pred(p, k);
    }
}

/// Scrolling the detail view down and back up returns to the same state.
pub proof fn detail_scroll_down_then_up(a: AppView)
    requires
        a.patch_success is None,
        a.detail_scroll < u16::MAX,
    ensures
        detail_next(detail_next(a, Key::Down), Key::Up) == a,
{
}

/// A format issue is never sent to the model nor patched: from a detail view
/// of a format issue outside the patch preview, no key asks the model, applies
/// a patch or opens the preview.
pub proof fn format_issues_are_never_patched(a: AppView, key: Key)
    requires
        a.patch_success is None,
        is_format_issue(a),
        !a.detail_patch_confirm_mode,
    ensures
        detail_action(a, key) == ActionView::Nothing,
        !detail_next(a, key).detail_patch_confirm_mode,
{
}

} // verus!
