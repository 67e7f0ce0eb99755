use shatter::domain::{ArtifactKind, DeleteFailure, DeleteResult, DeleteStrategy, ScanItem, ScanReport, ScanTotals};
use shatter::fspath::FsPath;
use shatter::results::{FilterMode, PendingDelete, ResultsState, SortMode};
use shatter::state::HomeMode;
use shatter::view::{
    candidate_rows, current_path_text, scan_heading, scan_status_text, centered_app_rect, centered_box, confirm_text, delete_progress_text, failures_text, filter_label, indeterminate_bar,
    input_text, latest_warnings, recent_lines, size_text, sort_label, sync_list_offset, Rect,
};

fn reference_bar(tick: u64, width: usize) -> String {
    let width = width.max(12);
    let segment = (width / 4).max(4).min(width.saturating_sub(2));
    let travel = width.saturating_sub(segment);
    let cycle = travel.saturating_mul(2).max(1);
    let step = (tick as usize) % cycle;
    let offset = if step <= travel { step } else { cycle - step };
    let mut chars = vec![' '; width];
    for slot in chars.iter_mut().skip(offset).take(segment) {
        *slot = '=';
    }
    format!("[{}]", chars.into_iter().collect::<String>())
}

#[test]
fn busy_bar_moves_to_and_fro() {
    for width in [0usize, 12, 20, 28, 41] {
        for tick in 0..80u64 {
            assert_eq!(indeterminate_bar(tick, width), reference_bar(tick, width), "tick {tick} width {width}");
        }
    }
    assert_eq!(indeterminate_bar(0, 12), "[====        ]");
    assert_eq!(indeterminate_bar(9, 12), "[       ==== ]");
}

fn reference_sync(offset: usize, selected: usize, len: usize, viewport: usize) -> usize {
    if len == 0 || viewport == 0 {
        return 0;
    }
    let max_offset = len.saturating_sub(viewport);
    let mut offset = offset.min(max_offset);
    if selected < offset {
        offset = selected;
    } else if selected >= offset.saturating_add(viewport) {
        offset = selected + 1 - viewport;
    }
    offset
}

#[test]
fn list_offset_keeps_selection_in_view() {
    for len in 0..8 {
        for viewport in 0..5 {
            for selected in 0..8 {
                for start in 0..8 {
                    let mut offset = start;
                    sync_list_offset(&mut offset, selected, len, viewport);
                    assert_eq!(offset, reference_sync(start, selected, len, viewport));
                }
            }
        }
    }
}

#[test]
fn dialogs_are_centred() {
    let area = Rect { x: 0, y: 0, width: 100, height: 40 };
    assert_eq!(centered_box(area, 56, 10), Rect { x: 22, y: 15, width: 56, height: 10 });
    let small = Rect { x: 2, y: 1, width: 10, height: 3 };
    assert_eq!(centered_box(small, 56, 10), Rect { x: 5, y: 2, width: 4, height: 1 });
    assert_eq!(centered_app_rect(Rect { x: 0, y: 0, width: 200, height: 50 }), Rect { x: 40, y: 6, width: 120, height: 38 });
    assert_eq!(centered_app_rect(Rect { x: 0, y: 0, width: 80, height: 24 }), Rect { x: 1, y: 0, width: 78, height: 23 });
}

#[test]
fn labels_and_texts() {
    assert_eq!(filter_label(FilterMode::All), "all");
    assert_eq!(filter_label(FilterMode::CacheAndBuild), "cache/build");
    assert_eq!(filter_label(FilterMode::Dependencies), "deps");
    assert_eq!(sort_label(SortMode::LargestFirst), "largest");
    assert_eq!(sort_label(SortMode::PathAscending), "path");
    assert_eq!(size_text(None), "n/a");
    assert_eq!(size_text(Some(2048)), "2.0 KB");
    assert_eq!(input_text("/tmp", HomeMode::PathEntry, 1), "/tmp\u{2588}");
    assert_eq!(input_text("/tmp", HomeMode::PathEntry, 5), "/tmp ");
    assert_eq!(input_text("/tmp", HomeMode::Browser, 1), "/tmp");
    let pending = PendingDelete { strategy: DeleteStrategy::Trash, item_indices: vec![0, 2], total_bytes: 1536 };
    assert_eq!(confirm_text(&pending), "Move 2 item(s) for 1.5 KB");
    let pending = PendingDelete { strategy: DeleteStrategy::Permanent, item_indices: vec![1], total_bytes: 3 };
    assert_eq!(confirm_text(&pending), "Permanently delete 1 item(s) for 3 B");
    assert_eq!(delete_progress_text(DeleteStrategy::Trash, 4), "Moving to trash 4 item(s)...");
    assert_eq!(delete_progress_text(DeleteStrategy::Permanent, 1), "Deleting 1 item(s)...");
}

#[test]
fn failure_summary_lists_four_at_most() {
    let none = DeleteResult { deleted: vec![], failed: vec![], reclaimed_bytes: 0 };
    assert_eq!(failures_text(&none), "No failures");
    let failed: Vec<DeleteFailure> = (0..6)
        .map(|i| DeleteFailure { path: FsPath::parse(&format!("/f{i}")), message: format!("m{i}") })
        .collect();
    let result = DeleteResult { deleted: vec![], failed, reclaimed_bytes: 0 };
    assert_eq!(failures_text(&result), "/f0: m0\n/f1: m1\n/f2: m2\n/f3: m3");
}

#[test]
fn lists_on_the_screens() {
    let paths: Vec<FsPath> = (0..10).map(|i| FsPath::parse(&format!("/r{i}"))).collect();
    let lines = recent_lines(&paths);
    assert_eq!(lines.len(), 8);
    assert_eq!(lines[7], "/r7");
    let warnings = vec!["a".to_string(), "b".to_string(), "c".to_string()];
    assert_eq!(latest_warnings(&warnings, 2), vec!["c".to_string(), "b".to_string()]);
    assert_eq!(latest_warnings(&warnings, 9).len(), 3);
}

#[test]
fn candidate_rows_follow_the_listing() {
    let item = |path: &str, kind: ArtifactKind, bytes: Option<u64>| ScanItem {
        path: FsPath::parse(path),
        kind,
        ecosystem: "eco".to_string(),
        rule_name: "rule".to_string(),
        bytes,
        last_modified: None,
        project_root: None,
        notes: vec![],
    };
    let mut results = ResultsState::new(ScanReport {
        items: vec![item("/a/target", ArtifactKind::Build, Some(10)), item("/", ArtifactKind::Cache, None), item("/b/node_modules", ArtifactKind::Dependency, Some(2048))],
        totals: ScanTotals::default(),
        warnings: vec![],
        duration_ms: 0,
        cancelled: false,
    });
    results.checked.insert(2);
    let rows = candidate_rows(&results);
    assert_eq!(rows.len(), 3);
    assert!(rows[0].checked);
    assert_eq!(rows[0].name, "node_modules");
    assert_eq!(rows[0].kind, "dependency");
    assert_eq!(rows[0].size, "2.0 KB");
    assert_eq!(rows[1].name, "target");
    assert_eq!(rows[2].name, "?");
    assert_eq!(rows[2].size, "n/a");
    assert_eq!(scan_heading(&None), "Preparing scan target");
    assert_eq!(scan_heading(&Some(FsPath::parse("/w"))), "/w");
    assert_eq!(current_path_text(&None), "waiting for first directory...");
    assert_eq!(scan_status_text(11), "finalizing results...");
    assert_eq!(scan_status_text(10), "actively scanning");
}
