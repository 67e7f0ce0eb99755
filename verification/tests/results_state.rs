use shatter::domain::{ArtifactKind, DeleteResult, ScanItem, ScanReport, ScanTotals, ScanWarning};
use shatter::fspath::FsPath;
use shatter::results::{FilterMode, ResultsState, SortMode};
use shatter::state::AppModel;
use shatter::storage::AppState;

fn item(path: &str, kind: ArtifactKind, ecosystem: &str, rule: &str, bytes: u64) -> ScanItem {
    ScanItem {
        path: FsPath::parse(path),
        kind,
        ecosystem: ecosystem.to_string(),
        rule_name: rule.to_string(),
        bytes: Some(bytes),
        last_modified: None,
        project_root: None,
        notes: vec![],
    }
}

fn sample_results() -> ResultsState {
    ResultsState::new(ScanReport {
        items: vec![
            item("/tmp/a", ArtifactKind::Cache, "generic", ".cache", 100),
            item("/tmp/b", ArtifactKind::Dependency, "javascript", "node_modules", 1000),
        ],
        totals: ScanTotals::default(),
        warnings: vec![ScanWarning { path: None, message: "warning".to_string() }],
        duration_ms: 1000,
        cancelled: false,
    })
}

#[test]
fn recent_paths_are_deduplicated() {
    let state = AppState { recent_paths: vec![FsPath::parse("/tmp/a")], last_browser_path: None };
    let mut model = AppModel::new(None, &state, false, FsPath::parse("."));
    model.remember_recent_path(&FsPath::parse("/tmp/a"));
    model.remember_recent_path(&FsPath::parse("/tmp/b"));
    assert!(model.home.recent_paths[0].same_as(&FsPath::parse("/tmp/b")));
    assert_eq!(model.home.recent_paths.len(), 2);
}

#[test]
fn filters_visible_items() {
    let mut results = sample_results();
    results.filter = FilterMode::Dependencies;
    let visible = results.visible_indices();
    assert_eq!(visible, vec![1]);
}

#[test]
fn toggle_all_visible_selects_then_clears_visible_items() {
    let mut results = sample_results();

    results.toggle_all_visible();
    assert_eq!(results.checked.to_vec(), vec![0, 1]);

    results.toggle_all_visible();
    assert!(results.checked.is_empty());
}

#[test]
fn toggle_all_visible_only_affects_current_filter() {
    let mut results = sample_results();
    results.checked.insert(0);
    results.filter = FilterMode::Dependencies;

    results.toggle_all_visible();
    assert_eq!(results.checked.to_vec(), vec![0, 1]);

    results.toggle_all_visible();
    assert_eq!(results.checked.to_vec(), vec![0]);
}

#[test]
fn apply_delete_result_removes_deleted_items_and_updates_totals() {
    let mut results = sample_results();
    results.checked.insert(0);
    results.checked.insert(1);

    let result = DeleteResult {
        deleted: vec![FsPath::parse("/tmp/b")],
        failed: vec![],
        reclaimed_bytes: 1000,
    };

    results.apply_delete_result(&result);

    assert_eq!(results.report.items.len(), 1);
    assert!(results.report.items[0].path.same_as(&FsPath::parse("/tmp/a")));
    assert_eq!(results.report.totals.items, 1);
    assert_eq!(results.report.totals.bytes, 100);
    assert!(results.checked.is_empty());
}

#[test]
fn largest_first_then_by_path() {
    let results = ResultsState::new(ScanReport {
        items: vec![
            item("/z/small", ArtifactKind::Cache, "generic", ".cache", 10),
            item("/b/big", ArtifactKind::Build, "rust", "target", 500),
            item("/a/big", ArtifactKind::Build, "rust", "target", 500),
        ],
        totals: ScanTotals::default(),
        warnings: vec![],
        duration_ms: 0,
        cancelled: false,
    });
    assert_eq!(results.sort, SortMode::LargestFirst);
    assert_eq!(results.visible_indices(), vec![2, 1, 0]);
}

#[test]
fn path_order_and_filter_cycle() {
    let mut results = sample_results();
    results.cycle_sort();
    assert_eq!(results.sort, SortMode::PathAscending);
    assert_eq!(results.visible_indices(), vec![0, 1]);
    results.cycle_sort();
    assert_eq!(results.sort, SortMode::LargestFirst);
    assert_eq!(results.visible_indices(), vec![1, 0]);

    results.cycle_filter();
    assert_eq!(results.filter, FilterMode::CacheAndBuild);
    assert_eq!(results.visible_indices(), vec![0]);
    results.cycle_filter();
    assert_eq!(results.filter, FilterMode::Dependencies);
    results.cycle_filter();
    assert_eq!(results.filter, FilterMode::All);
}

#[test]
fn selection_moves_and_stops_at_the_ends() {
    let mut results = sample_results();
    assert_eq!(results.selected_item_index(), Some(1));
    results.move_selection(1);
    assert_eq!(results.selected_visible, 1);
    results.move_selection(1);
    assert_eq!(results.selected_visible, 1);
    results.move_selection(-5);
    assert_eq!(results.selected_visible, 0);
}

#[test]
fn pending_delete_counts_targets() {
    let mut results = sample_results();
    assert_eq!(results.selected_count(), 1);
    assert_eq!(results.checked_bytes(), 1000);
    results.toggle_selected();
    results.move_selection(1);
    results.toggle_selected();
    assert_eq!(results.selected_count(), 2);
    assert_eq!(results.checked_bytes(), 1100);
    assert!(results.begin_delete(shatter::domain::DeleteStrategy::Permanent));
    let pending = results.pending_delete.as_ref().expect("pending");
    assert_eq!(pending.item_indices, vec![0, 1]);
    assert_eq!(pending.total_bytes, 1100);
    let items = results.delete_items();
    assert_eq!(items.len(), 2);
    assert_eq!(items[0].rule_name, ".cache");
}

#[test]
fn nothing_to_delete_without_targets() {
    let mut results = ResultsState::new(ScanReport {
        items: vec![],
        totals: ScanTotals::default(),
        warnings: vec![],
        duration_ms: 0,
        cancelled: false,
    });
    assert!(!results.begin_delete(shatter::domain::DeleteStrategy::Trash));
    assert!(results.pending_delete.is_none());
    assert_eq!(results.selected_count(), 0);
}

#[test]
fn deleting_nothing_changes_nothing() {
    let mut results = sample_results();
    results.checked.insert(1);
    results.apply_delete_result(&DeleteResult { deleted: vec![], failed: vec![], reclaimed_bytes: 0 });
    assert_eq!(results.report.items.len(), 2);
    assert_eq!(results.checked.to_vec(), vec![1]);
}

#[test]
fn footer_hint_and_summary_title() {
    let results = sample_results();
    assert_eq!(shatter::results::footer_hint(&results), "selected 1 \u{2022} 1000 B");
    let summary = shatter::results::SummaryState {
        result: DeleteResult { deleted: vec![FsPath::parse("/tmp/a")], failed: vec![], reclaimed_bytes: 100 },
        strategy: shatter::domain::DeleteStrategy::Trash,
    };
    assert_eq!(summary.title(), "trash completed: 1 deleted, 0 failed");
}

#[test]
fn toggling_selected_twice_unmarks() {
    let mut results = sample_results();
    results.toggle_selected();
    assert_eq!(results.checked.to_vec(), vec![1]);
    results.toggle_selected();
    assert!(results.checked.is_empty());
    results.toggle_selected();
    results.clear_selection();
    assert!(results.checked.is_empty());
}
