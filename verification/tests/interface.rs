use shatter::domain::{ArtifactKind, DeleteResult, DeleteStrategy, ScanEvent, ScanItem, ScanReport, ScanTotals, ScanWarning};
use shatter::fspath::FsPath;
use shatter::keys::{handle_key, route, Key, KeyAction, KeyRoute};
use shatter::results::{FilterMode, ResultsState};
use shatter::state::{browser_listing, handle_scan_event, AppModel, BrowserEntry, HomeMode, Screen};
use shatter::storage::{load, AppState};
use shatter::view::{cleanup_line, report_line};
use shatter::error::RepoSweepError;

fn entry(path: &str, label: &str) -> BrowserEntry {
    BrowserEntry { path: FsPath::parse(path), label: label.to_string() }
}

fn root_dirs() -> Vec<BrowserEntry> {
    vec![entry("/tmp/r/gamma", "gamma"), entry("/tmp/r/alpha", "alpha"), entry("/tmp/r/beta", "beta")]
}

#[test]
fn browser_listing_puts_parent_first_then_sorts() {
    let listing = browser_listing(&FsPath::parse("/tmp/r"), root_dirs());
    let labels: Vec<&str> = listing.iter().map(|e| e.label.as_str()).collect();
    assert_eq!(labels, vec!["..", "alpha", "beta", "gamma"]);
    assert!(listing[0].path.same_as(&FsPath::parse("/tmp")));
    let top = browser_listing(&FsPath::parse("/"), vec![entry("/b", "b"), entry("/B", "B")]);
    let labels: Vec<&str> = top.iter().map(|e| e.label.as_str()).collect();
    assert_eq!(labels, vec!["B", "b"]);
}

#[test]
fn browser_restores_parent_selection_after_returning() {
    let root = FsPath::parse("/tmp/r");
    let mut model = AppModel::new(Some(root.duplicate()), &AppState::default(), true, FsPath::parse("/home"));
    model.refresh_browser(browser_listing(&root, root_dirs()));
    let gamma_index = model
        .home
        .browser_entries
        .iter()
        .position(|entry| entry.label == "gamma")
        .expect("gamma index");
    model.home.browser_selected = gamma_index;
    model.home.browser_offset = gamma_index.saturating_sub(1);

    assert!(model.enter_browser());
    assert!(model.home.browser_path.same_as(&FsPath::parse("/tmp/r/gamma")));
    assert_eq!(model.home.input, "/tmp/r/gamma");
    let gamma = model.home.browser_path.duplicate();
    model.refresh_browser(browser_listing(&gamma, vec![entry("/tmp/r/gamma/child", "child")]));

    let parent_index = model
        .home
        .browser_entries
        .iter()
        .position(|entry| entry.label == "..")
        .expect("parent index");
    model.home.browser_selected = parent_index;
    assert!(model.enter_browser());
    model.refresh_browser(browser_listing(&root, root_dirs()));

    assert!(model.home.browser_path.same_as(&root));
    assert_eq!(model.home.browser_selected, gamma_index);
    assert_eq!(model.home.browser_offset, gamma_index.saturating_sub(1));
}

#[test]
fn new_model_starts_where_asked() {
    let state = AppState { recent_paths: vec![], last_browser_path: Some(FsPath::parse("/last")) };
    let model = AppModel::new(None, &state, false, FsPath::parse("/cwd"));
    assert!(model.home.browser_path.same_as(&FsPath::parse("/last")));
    assert_eq!(model.home.input, "/last");
    let model = AppModel::new(Some(FsPath::parse("/gone")), &state, false, FsPath::parse("/cwd"));
    assert_eq!(model.home.input, "/gone");
    assert!(model.home.browser_path.same_as(&FsPath::parse("/gone")));
    let model = AppModel::new(None, &AppState::default(), false, FsPath::parse("/cwd"));
    assert_eq!(model.home.input, "/cwd");
    assert_eq!(model.screen, Screen::Home);
    assert_eq!(model.home.mode, HomeMode::PathEntry);
}

#[test]
fn recent_paths_keep_ten_newest_first() {
    let mut model = AppModel::new(None, &AppState::default(), false, FsPath::parse("/"));
    for i in 0..12 {
        model.remember_recent_path(&FsPath::parse(&format!("/p{i}")));
    }
    assert_eq!(model.home.recent_paths.len(), 10);
    assert_eq!(model.home.recent_paths[0].display(), "/p11");
    model.remember_recent_path(&FsPath::parse("/p5"));
    assert_eq!(model.home.recent_paths[0].display(), "/p5");
    assert_eq!(model.home.recent_paths.len(), 10);
    assert_eq!(model.home.recent_paths.iter().filter(|p| p.display() == "/p5").count(), 1);
}

#[test]
fn scan_events_update_progress() {
    let mut model = AppModel::new(None, &AppState::default(), false, FsPath::parse("/"));
    model.begin_scan(FsPath::parse("/tmp/r"));
    assert_eq!(model.screen, Screen::Scanning);
    handle_scan_event(&mut model, ScanEvent::EnteredPath { path: FsPath::parse("/tmp/r") });
    handle_scan_event(&mut model, ScanEvent::MatchFound {
        path: FsPath::parse("/tmp/r/target"),
        kind: ArtifactKind::Build,
        rule_name: "target".to_string(),
    });
    handle_scan_event(&mut model, ScanEvent::Warning(ScanWarning {
        path: Some(FsPath::parse("/tmp/r/x")),
        message: "skipped".to_string(),
    }));
    handle_scan_event(&mut model, ScanEvent::Warning(ScanWarning { path: None, message: "plain".to_string() }));
    assert_eq!(model.scan.scanned_dirs, 1);
    assert_eq!(model.scan.matched_items, 1);
    assert_eq!(model.scan.warnings, vec!["/tmp/r/x: skipped".to_string(), "plain".to_string()]);
    assert_eq!(model.scan.current_path.as_ref().unwrap().display(), "/tmp/r");
}

fn report() -> ScanReport {
    ScanReport {
        items: vec![ScanItem {
            path: FsPath::parse("/tmp/r/target"),
            kind: ArtifactKind::Build,
            ecosystem: "rust".to_string(),
            rule_name: "target".to_string(),
            bytes: Some(2048),
            last_modified: None,
            project_root: Some(FsPath::parse("/tmp/r")),
            notes: vec![],
        }],
        totals: ScanTotals::default(),
        warnings: vec![],
        duration_ms: 5,
        cancelled: false,
    }
}

#[test]
fn keys_drive_the_results_screen() {
    let mut model = AppModel::new(None, &AppState::default(), false, FsPath::parse("/"));
    model.finish_scan(report());
    assert_eq!(model.screen, Screen::Results);
    assert_eq!(route(&model, false), KeyRoute::Results);
    assert!(matches!(handle_key(&mut model, Key::Char(' '), false, false), KeyAction::Nothing));
    assert_eq!(model.results.as_ref().unwrap().checked.to_vec(), vec![0]);
    assert!(matches!(handle_key(&mut model, Key::Char('f'), false, false), KeyAction::Nothing));
    assert_eq!(model.results.as_ref().unwrap().filter, FilterMode::CacheAndBuild);
    assert!(matches!(handle_key(&mut model, Key::Char('D'), false, false), KeyAction::Nothing));
    assert_eq!(route(&model, false), KeyRoute::Confirm);
    match handle_key(&mut model, Key::Char('y'), false, false) {
        KeyAction::StartDelete(items, strategy) => {
            assert_eq!(items.len(), 1);
            assert_eq!(strategy, DeleteStrategy::Permanent);
        }
        _ => panic!("expected a deletion"),
    }
    assert!(model.results.as_ref().unwrap().pending_delete.is_none());
    assert_eq!(route(&model, true), KeyRoute::DeleteProgress);
    model.finish_delete(
        DeleteResult { deleted: vec![FsPath::parse("/tmp/r/target")], failed: vec![], reclaimed_bytes: 2048 },
        DeleteStrategy::Permanent,
    );
    assert_eq!(model.results.as_ref().unwrap().report.items.len(), 0);
    assert_eq!(route(&model, false), KeyRoute::Summary);
    assert!(matches!(handle_key(&mut model, Key::Char('r'), false, false), KeyAction::ScanInput));
    assert!(model.summary.is_none());
    assert!(matches!(handle_key(&mut model, Key::Char('h'), false, false), KeyAction::Nothing));
    assert_eq!(model.screen, Screen::Home);
}

#[test]
fn keys_drive_the_home_screen() {
    let mut model = AppModel::new(None, &AppState::default(), false, FsPath::parse("/tmp"));
    model.home.input = String::new();
    for c in "/tmp/x".chars() {
        handle_key(&mut model, Key::Char(c), false, false);
    }
    assert_eq!(model.home.input, "/tmp/x");
    handle_key(&mut model, Key::Backspace, false, false);
    assert_eq!(model.home.input, "/tmp/");
    handle_key(&mut model, Key::Char('x'), true, false);
    assert_eq!(model.home.input, "/tmp/");
    assert!(matches!(handle_key(&mut model, Key::Enter, false, false), KeyAction::ScanInput));
    handle_key(&mut model, Key::Tab, false, false);
    assert_eq!(model.home.mode, HomeMode::Browser);
    assert!(matches!(handle_key(&mut model, Key::Char('s'), false, false), KeyAction::ScanInput));
    assert_eq!(model.home.input, "/tmp");
    handle_key(&mut model, Key::Char('q'), false, false);
    assert!(model.should_quit);

    let mut model = AppModel::new(None, &AppState::default(), false, FsPath::parse("/tmp"));
    model.set_error("broken".to_string());
    assert_eq!(model.screen, Screen::Error);
    handle_key(&mut model, Key::Esc, false, false);
    assert_eq!(model.screen, Screen::Home);
    assert!(model.last_error.is_none());
    assert!(!model.should_quit);
    handle_key(&mut model, Key::Char('c'), true, false);
    assert!(model.should_quit);
}

#[test]
fn scanning_keys_cancel() {
    let mut model = AppModel::new(None, &AppState::default(), false, FsPath::parse("/tmp"));
    model.begin_scan(FsPath::parse("/tmp"));
    assert!(matches!(handle_key(&mut model, Key::Esc, false, false), KeyAction::CancelScan));
    assert!(!model.should_quit);
    assert!(matches!(handle_key(&mut model, Key::Char('q'), false, false), KeyAction::CancelScan));
    assert!(model.should_quit);
}

#[test]
fn scan_target_comes_from_the_typed_path() {
    let mut model = AppModel::new(None, &AppState::default(), false, FsPath::parse("/tmp"));
    model.home.input = "   ".to_string();
    assert!(model.scan_target().is_none());
    assert_eq!(model.last_error.as_deref(), Some("Enter a path to scan."));
    model.clear_error();
    model.home.input = "  /tmp/r/  ".to_string();
    let target = model.scan_target().expect("target");
    assert_eq!(target.display(), "/tmp/r/");
    model.reject_scan_target(&target);
    assert_eq!(model.last_error.as_deref(), Some("Path is not a readable directory: /tmp/r/"));
    let mut state = AppState::default();
    model.accept_scan_root(target, browser_listing(&FsPath::parse("/tmp/r"), root_dirs()), &mut state);
    assert_eq!(state.recent_paths.len(), 1);
    assert_eq!(state.recent_paths[0].display(), "/tmp/r/");
    assert_eq!(model.home.recent_paths[0].display(), "/tmp/r/");
    assert_eq!(state.last_browser_path.as_ref().unwrap().display(), "/tmp/r/");
    assert_eq!(model.home.browser_path.display(), "/tmp/r/");
    assert_eq!(model.home.browser_entries.len(), 4);
}

#[test]
fn stored_state_falls_back_to_empty() {
    let state = load(Err(RepoSweepError::Config("unreadable".to_string())));
    assert!(state.recent_paths.is_empty());
    assert!(state.last_browser_path.is_none());
    let kept = load(Ok(AppState { recent_paths: vec![FsPath::parse("/a")], last_browser_path: None }));
    assert_eq!(kept.recent_paths.len(), 1);
}

#[test]
fn results_model_starts_fresh() {
    let results = ResultsState::new(report());
    assert!(results.checked.is_empty());
    assert_eq!(results.selected_visible, 0);
}

#[test]
fn a_failed_scan_shows_its_error() {
    let mut model = AppModel::new(None, &AppState::default(), false, FsPath::parse("/"));
    model.begin_scan(FsPath::parse("/tmp/r"));
    handle_scan_event(&mut model, ScanEvent::EnteredPath { path: FsPath::parse("/tmp/r") });
    model.fail_scan(&RepoSweepError::InvalidRequest("at least one root is required".to_string()));
    assert_eq!(model.screen, Screen::Error);
    assert_eq!(model.last_error.as_deref(), Some("invalid request: at least one root is required"));
    assert_eq!(model.scan.scanned_dirs, 0);
    assert!(model.scan.root.is_none());
}

#[test]
fn confirming_keys_delete_nothing_without_a_pending_deletion() {
    let mut model = AppModel::new(None, &AppState::default(), false, FsPath::parse("/"));
    model.finish_scan(report());
    for key in [Key::Char('y'), Key::Char('Y'), Key::Enter] {
        let action = handle_key(&mut model, key, false, false);
        assert!(!matches!(action, KeyAction::StartDelete(..)));
        handle_key(&mut model, Key::Esc, false, false);
        model.screen = Screen::Results;
    }
    assert!(matches!(handle_key(&mut model, Key::Char('d'), false, false), KeyAction::Nothing));
    assert!(matches!(handle_key(&mut model, Key::Char('n'), false, false), KeyAction::Nothing));
    assert!(model.results.as_ref().unwrap().pending_delete.is_none());
    assert_eq!(model.results.as_ref().unwrap().report.items.len(), 1);
}

#[test]
fn home_escape_and_tab_leave_the_rest_alone() {
    let mut model = AppModel::new(None, &AppState::default(), false, FsPath::parse("/tmp"));
    model.home.input = "/srv".to_string();
    handle_key(&mut model, Key::Tab, false, false);
    assert_eq!(model.home.mode, HomeMode::Browser);
    assert_eq!(model.home.input, "/srv");
    assert_eq!(model.screen, Screen::Home);
    assert!(!model.should_quit);
    handle_key(&mut model, Key::Tab, false, false);
    assert_eq!(model.home.mode, HomeMode::PathEntry);
    handle_key(&mut model, Key::Esc, false, false);
    assert!(model.should_quit);
    assert_eq!(model.screen, Screen::Home);
    assert!(model.last_error.is_none());
    assert_eq!(model.home.input, "/srv");
    assert_eq!(model.scan.scanned_dirs, 0);
    assert!(model.scan.root.is_none());
}

#[test]
fn typed_paths_show_as_typed() {
    let model = AppModel::new(Some(FsPath::parse("./proj/")), &AppState::default(), true, FsPath::parse("/tmp"));
    assert_eq!(model.home.input, "./proj/");
    assert_eq!(model.home.browser_path.display(), "./proj/");
    assert!(model.home.browser_path.same_as(&FsPath::parse("./proj")));
}

#[test]
fn command_line_report_lines() {
    let result = DeleteResult {
        deleted: vec![FsPath::parse("/a")],
        failed: vec![shatter::domain::DeleteFailure { path: FsPath::parse("/b/"), message: "busy".into() }],
        reclaimed_bytes: 2048,
    };
    assert_eq!(cleanup_line(&result), "Deleted 1 items, failed on 1, reclaimed 2.0 KB");
    assert_eq!(report_line(&Some(FsPath::parse("/b/")), "busy"), "- /b/: busy");
    assert_eq!(report_line(&None, "root does not exist"), "- root does not exist");
}
