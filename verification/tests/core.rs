use std::sync::{Arc, Mutex};

use shatter::config::{resolve_protected_path, Config, ConfigPaths, ConfigService, ConfigStore, CustomRuleConfig, FileConfigStore, UiStatePaths};
use shatter::delete::{DeleteAction, DeleteFault, DeleteService, DeletionBackend, FsDeletionBackend, record_outcome};
use shatter::discovery::{follows_entry, matches_age_filter, Age, Discovery, ReadFailure, Verdict, WalkStep};
use shatter::domain::{format_bytes, ArtifactKind, DeleteRequest, DeleteResult, DeleteStrategy, ScanEvent, ScanItem, ScanRequest, ScanScope, ProtectionPolicy, SizeMode};
use shatter::error::RepoSweepError;
use shatter::fspath::FsPath;
use shatter::rules::{built_in_rules, has_extension, MarkerFacts, RuleSet};
use shatter::scan::{kind_sums_fit, ScanService};
use shatter::text::trim;

#[derive(Default)]
struct MockDeletionBackend {
    deleted: Mutex<Vec<String>>,
}

impl DeletionBackend for MockDeletionBackend {
    fn delete(&self, path: &FsPath, _strategy: DeleteStrategy) -> Result<(), RepoSweepError> {
        self.deleted.lock().expect("lock").push(path.display());
        Ok(())
    }
}

fn scan_item(path: &str, bytes: Option<u64>) -> ScanItem {
    ScanItem {
        path: FsPath::parse(path),
        kind: ArtifactKind::Cache,
        ecosystem: "generic".into(),
        rule_name: "cache".into(),
        bytes,
        last_modified: None,
        project_root: None,
        notes: vec![],
    }
}

#[test]
fn delete_service_uses_backend() {
    let backend = MockDeletionBackend::default();
    let service = DeleteService::new(backend);
    let item = scan_item("/tmp/test-cache", Some(256));

    let result = service.delete(DeleteRequest { items: vec![item], strategy: DeleteStrategy::Trash });

    assert!(result.failed.is_empty());
    assert_eq!(result.reclaimed_bytes, 256);
}

struct RefusingBackend;

impl DeletionBackend for RefusingBackend {
    fn delete(&self, path: &FsPath, _strategy: DeleteStrategy) -> Result<(), RepoSweepError> {
        if path.display().ends_with("locked") {
            Err(RepoSweepError::Delete { path: path.duplicate(), message: "in use".into() })
        } else {
            Ok(())
        }
    }
}

#[test]
fn delete_service_reports_failures_in_order() {
    let service = DeleteService::new(RefusingBackend);
    let result = service.delete(DeleteRequest {
        items: vec![scan_item("/a", Some(10)), scan_item("/b/locked", Some(20)), scan_item("/c", None), scan_item("/d", Some(u64::MAX))],
        strategy: DeleteStrategy::Permanent,
    });
    assert_eq!(result.deleted.iter().map(|p| p.display()).collect::<Vec<_>>(), vec!["/a", "/c", "/d"]);
    assert_eq!(result.failed.len(), 1);
    assert_eq!(result.failed[0].path.display(), "/b/locked");
    assert_eq!(result.failed[0].message, "delete failed for /b/locked: in use");
    assert_eq!(result.reclaimed_bytes, u64::MAX);
}

#[test]
fn recording_an_outcome() {
    let mut result = DeleteResult { deleted: vec![], failed: vec![], reclaimed_bytes: 5 };
    record_outcome(&mut result, scan_item("/x", Some(7)), Ok(()));
    assert_eq!(result.reclaimed_bytes, 12);
    record_outcome(&mut result, scan_item("/y", Some(7)), Err(RepoSweepError::Worker("gone".into())));
    assert_eq!(result.reclaimed_bytes, 12);
    assert_eq!(result.failed[0].message, "background worker error: gone");
}

#[test]
fn file_system_backend_picks_the_action() {
    let backend = FsDeletionBackend;
    assert_eq!(backend.action(DeleteStrategy::Trash, true), DeleteAction::MoveToTrash);
    assert_eq!(backend.action(DeleteStrategy::Permanent, true), DeleteAction::RemoveDir);
    assert_eq!(backend.action(DeleteStrategy::Permanent, false), DeleteAction::RemoveFile);
    let e = backend.failure(DeleteAction::MoveToTrash, FsPath::parse("/x"), DeleteFault::Trash("nope".into()));
    assert_eq!(e.message(), "delete failed for /x: nope");
    let io = std::io::Error::new(std::io::ErrorKind::PermissionDenied, "denied here");
    let e = backend.failure(DeleteAction::RemoveDir, FsPath::parse("/x"), DeleteFault::Io(io));
    assert_eq!(e.message(), "remove dir failed for /x: denied here");
}

#[test]
fn error_messages() {
    assert_eq!(RepoSweepError::InvalidRequest("bad".into()).message(), "invalid request: bad");
    assert_eq!(RepoSweepError::Config("bad".into()).message(), "config error: bad");
    assert_eq!(RepoSweepError::Worker("bad".into()).message(), "background worker error: bad");
    let io = std::io::Error::new(std::io::ErrorKind::NotFound, "no such thing");
    let e = RepoSweepError::io("read config", FsPath::parse("/etc/x.toml"), io);
    assert_eq!(e.message(), "read config failed for /etc/x.toml: no such thing");
}

#[test]
fn format_bytes_matches_rounded_units() {
    fn reference(bytes: u64) -> String {
        let units = ["B", "KB", "MB", "GB", "TB"];
        let mut value = bytes as f64;
        let mut unit = 0usize;
        while value >= 1024.0 && unit < units.len() - 1 {
            value /= 1024.0;
            unit += 1;
        }
        if unit == 0 {
            format!("{bytes} {}", units[unit])
        } else {
            format!("{value:.1} {}", units[unit])
        }
    }
    for &b in &[0u64, 1, 512, 1023, 1024, 1025, 1536, 1587, 10 * 1024 + 51, 1048575, 1048576, 5 << 30, (1 << 40) + 123456789, u64::MAX, 999_999_999_999_999] {
        assert_eq!(format_bytes(b), reference(b), "bytes {b}");
    }
    assert_eq!(format_bytes(1536), "1.5 KB");
    assert_eq!(format_bytes(512), "512 B");
}

#[test]
fn generic_rule_requires_markers() {
    let rules = RuleSet::from_config(&Config::default());
    let root = FsPath::parse("/work/app");
    let build = FsPath::parse("/work/app/build");
    let facts = MarkerFacts::new();
    assert!(rules.match_directory(&build, &root, &facts).is_none());

    let mut facts = MarkerFacts::new();
    facts.record(FsPath::parse("/work/app"), "package.json".into());
    let found = rules.match_directory(&build, &root, &facts).expect("match");
    assert_eq!(found.rule.name, "Build Output");
    assert_eq!(found.project_root.unwrap().display(), "/work/app");
}

#[test]
fn exact_rules_match_by_name() {
    let rules = RuleSet::from_config(&Config::default());
    let facts = MarkerFacts::new();
    let m = rules.match_directory(&FsPath::parse("/w/p/node_modules"), &FsPath::parse("/w"), &facts).expect("match");
    assert_eq!(m.rule.kind, ArtifactKind::Dependency);
    assert_eq!(m.project_root.unwrap().display(), "/w/p");
    assert!(rules.match_directory(&FsPath::parse("/w/p/src"), &FsPath::parse("/w"), &facts).is_none());
    assert_eq!(built_in_rules().len(), 23);
}

#[test]
fn disabled_ecosystems_are_left_out_ignoring_case() {
    let mut config = Config::default();
    config.disabled_ecosystems = vec!["JavaScript".into()];
    let rules = RuleSet::from_config(&config);
    assert!(rules.rules().iter().all(|r| r.ecosystem != "javascript"));
    assert_eq!(rules.rules().len(), 23 - 7);
    config.custom_rules = vec![CustomRuleConfig {
        name: "Elm stuff".into(),
        directory_name: "elm-stuff".into(),
        kind: ArtifactKind::Dependency,
        ecosystem: "elm".into(),
        required_markers: vec![],
        enabled: true,
    }];
    let rules = RuleSet::from_config(&config);
    assert!(rules.match_directory(&FsPath::parse("/w/elm-stuff"), &FsPath::parse("/w"), &MarkerFacts::new()).is_some());
}

#[test]
fn protected_paths_cover_their_subtrees() {
    let rules = RuleSet::from_config(&Config::default());
    let root = FsPath::parse("/w");
    assert!(rules.is_protected_path(&root, &FsPath::parse("/w/.git")));
    assert!(rules.is_protected_path(&root, &FsPath::parse("/w/.git/objects")));
    assert!(rules.is_protected_path(&root, &FsPath::parse("/w/.idea/runConfigurations/x")));
    assert!(!rules.is_protected_path(&root, &FsPath::parse("/w/.gitignore")));
    assert_eq!(resolve_protected_path(&root, &FsPath::parse("/abs")).display(), "/abs");
    assert_eq!(resolve_protected_path(&root, &FsPath::parse("rel/x")).display(), "/w/rel/x");
}

#[test]
fn marker_probes_name_the_search() {
    let rules = RuleSet::from_config(&Config::default());
    let probes = rules.marker_probes(&FsPath::parse("/w/a/b/build"), &FsPath::parse("/w/a"));
    let dirs: Vec<String> = probes.dirs.iter().map(|d| d.display()).collect();
    assert_eq!(dirs, vec!["/w/a/b", "/w/a"]);
    assert!(probes.markers.contains(&"package.json".to_string()));
    assert!(probes.markers.contains(&"go.mod".to_string()));
    let none = rules.marker_probes(&FsPath::parse("/w/a/src"), &FsPath::parse("/w/a"));
    assert!(none.markers.is_empty());
}

#[test]
fn config_paths_and_defaults() {
    let c = Config::default();
    assert!(c.disabled_ecosystems.is_empty());
    assert_eq!(c.protected_paths.iter().map(|p| p.display()).collect::<Vec<_>>(), vec![".git", ".github", ".idea/runConfigurations"]);
    assert_eq!(c.default_delete_strategy, DeleteStrategy::Trash);
    let paths = ConfigPaths::in_config_dir(FsPath::parse("/home/u/.config/shatter"));
    assert_eq!(paths.config_file.display(), "/home/u/.config/shatter/config.toml");
    let state = UiStatePaths::in_data_dir(FsPath::parse("/home/u/.local/share/shatter"));
    assert_eq!(state.state_file.display(), "/home/u/.local/share/shatter/state.toml");
    if let Ok(p) = FileConfigStore::ui_state_paths() {
        assert!(p.state_file.display().ends_with("shatter/state.toml"));
    }
    if let Ok(p) = FileConfigStore.config_paths() {
        assert!(p.config_file.display().ends_with("shatter/config.toml"));
    }
}

#[test]
fn request_needs_a_root() {
    let request = ScanRequest {
        roots: vec![],
        scope: ScanScope::All,
        age_filter: None,
        protection_policy: ProtectionPolicy::RespectConfig,
        size_mode: SizeMode::Accurate,
    };
    match request.validate() {
        Err(e) => assert_eq!(e.message(), "invalid request: at least one root is required"),
        Ok(()) => panic!("accepted"),
    }
    assert!(ScanScope::Cache.includes(ArtifactKind::Build));
    assert!(!ScanScope::Cache.includes(ArtifactKind::Dependency));
    assert!(ScanScope::Dependencies.includes(ArtifactKind::Dependency));
}

#[test]
fn age_filter_passes_old_enough_directories() {
    assert!(matches_age_filter(None, Age::Secs(0)));
    assert!(matches_age_filter(Some(100), Age::Secs(100)));
    assert!(!matches_age_filter(Some(100), Age::Secs(99)));
    assert!(matches_age_filter(Some(100), Age::InFuture));
    assert!(matches_age_filter(Some(100), Age::Unknown));
}

/// A small directory tree standing in for the disk.
struct Tree {
    dirs: Vec<(&'static str, Vec<&'static str>)>,
    files: Vec<&'static str>,
}

impl Tree {
    fn children(&self, dir: &str) -> Vec<&'static str> {
        self.dirs.iter().filter(|(d, _)| *d == dir).flat_map(|(_, c)| c.iter().copied()).collect()
    }
    fn has_file(&self, path: &str) -> bool {
        self.files.contains(&path)
    }
}

fn walk(tree: &Tree, roots: &[&str], scope: ScanScope, existing: &[&str]) -> (shatter::discovery::DiscoveryOutput, Vec<ScanEvent>) {
    let rules = RuleSet::from_config(&Config::default());
    let mut events = vec![];
    let root_paths: Vec<FsPath> = roots.iter().map(|r| FsPath::parse(r)).collect();
    let mut d = Discovery::new(&root_paths);
    loop {
        match d.next_step(false) {
            WalkStep::Done => break,
            WalkStep::Root(root) => {
                if existing.contains(&root.display().as_str()) {
                    d.enter_root(root);
                } else {
                    events.push(d.root_missing(root));
                }
            }
            WalkStep::Dir(dir) => {
                let text = dir.display();
                let ignored = tree.has_file(&format!("{text}/.shatterignore"));
                let root = FsPath::parse(roots.iter().find(|r| text.starts_with(*r)).unwrap());
                let probes = rules.marker_probes(&dir, &root);
                let mut facts = MarkerFacts::new();
                for p in &probes.dirs {
                    for m in &probes.markers {
                        if tree.has_file(&format!("{}/{}", p.display(), m)) {
                            facts.record(p.duplicate(), m.clone());
                        }
                    }
                }
                match d.examine(&rules, scope, ignored, &facts) {
                    Verdict::Skipped(event) => events.push(event),
                    Verdict::Matched => {
                        if let Some(e) = d.accept_match(Some(1), None, Age::Secs(5)) {
                            events.push(e);
                        }
                    }
                    Verdict::Excluded => {}
                    Verdict::Descend => {
                        for name in tree.children(&text) {
                            d.enqueue(name, true, false);
                        }
                    }
                }
            }
        }
    }
    (d.finish(), events)
}

#[test]
fn scan_finds_common_artifacts() {
    let tree = Tree {
        dirs: vec![("/p", vec!["target", "src"]), ("/p/target", vec!["debug"])],
        files: vec!["/p/Cargo.toml"],
    };
    let (out, _) = walk(&tree, &["/p"], ScanScope::All, &["/p"]);
    assert_eq!(out.items.len(), 1);
    assert_eq!(out.items[0].rule_name, "target");
    assert_eq!(out.scanned_dirs, 3);
}

#[test]
fn shatterignore_skips_subtree() {
    let tree = Tree {
        dirs: vec![("/p", vec!["build"]), ("/p/build", vec!["cache"])],
        files: vec!["/p/package.json", "/p/build/.shatterignore"],
    };
    let (out, events) = walk(&tree, &["/p"], ScanScope::All, &["/p"]);
    assert!(out.items.is_empty());
    assert_eq!(out.warnings.len(), 1);
    assert_eq!(out.warnings[0].message, "skipped because .shatterignore is present");
    assert_eq!(events.len(), 1);
}

#[test]
fn protected_and_missing_roots_warn() {
    let tree = Tree {
        dirs: vec![("/p", vec![".git", "node_modules"]), ("/p/.git", vec!["objects"])],
        files: vec![],
    };
    let (out, _) = walk(&tree, &["/gone", "/p"], ScanScope::Cache, &["/p"]);
    assert_eq!(out.warnings[0].message, "root does not exist");
    assert_eq!(out.warnings[1].message, "skipped because path is protected by config");
    assert_eq!(out.warnings[1].path.as_ref().unwrap().display(), "/p/.git");
    assert!(out.items.is_empty());
    let (out, _) = walk(&tree, &["/p"], ScanScope::Dependencies, &["/p"]);
    assert_eq!(out.items.len(), 1);
    assert_eq!(out.items[0].kind, ArtifactKind::Dependency);
}

#[test]
fn listing_failures_become_warnings() {
    let mut d = Discovery::new(&vec![FsPath::parse("/p")]);
    let event = d.report_failure(FsPath::parse("/p/x"), ReadFailure::Directory, "permission denied");
    match event {
        ScanEvent::Warning(w) => assert_eq!(w.message, "failed to read directory: permission denied"),
        _ => panic!("expected a warning"),
    }
    let out = d.finish();
    assert_eq!(out.warnings.len(), 1);
}

#[test]
fn report_counts_items_and_kinds() {
    let service = ScanService::from_config(Config::default());
    let items = vec![scan_item("/a", Some(10)), scan_item("/b", Some(20)), scan_item("/c", None)];
    assert!(kind_sums_fit(&items));
    let report = service.report(items, vec![], 7, false);
    assert_eq!(report.totals.items, 3);
    assert_eq!(report.totals.bytes, 30);
    assert_eq!(report.totals.by_kind.cache, Some(30));
    assert_eq!(report.totals.by_kind.build, None);
    assert!(!kind_sums_fit(&vec![scan_item("/a", Some(u64::MAX)), scan_item("/b", Some(1))]));
}

#[test]
fn walk_steps_out_of_order_change_nothing() {
    let rules = RuleSet::from_config(&Config::default());
    let mut d = Discovery::new(&vec![FsPath::parse("/p")]);
    assert!(matches!(d.examine(&rules, ScanScope::All, false, &MarkerFacts::new()), Verdict::Excluded));
    assert!(d.accept_match(None, None, Age::Unknown).is_none());
    d.enqueue("x", true, false);
    match d.next_step(false) {
        WalkStep::Root(root) => d.enter_root(root),
        _ => panic!("expected the root"),
    }
    d.enqueue("y", true, false);
    match d.next_step(false) {
        WalkStep::Dir(dir) => assert_eq!(dir.display(), "/p"),
        _ => panic!("expected the root directory"),
    }
    assert!(matches!(d.examine(&rules, ScanScope::All, false, &MarkerFacts::new()), Verdict::Descend));
    d.enqueue("link", true, true);
    d.enqueue("file.txt", false, false);
    d.enqueue("target", true, false);
    match d.next_step(true) {
        WalkStep::Done => {}
        _ => panic!("a cancelled walk is done"),
    }
    match d.next_step(false) {
        WalkStep::Dir(dir) => assert_eq!(dir.display(), "/p/target"),
        _ => panic!("expected the queued child"),
    }
    let out = d.finish();
    assert!(out.items.is_empty());
    assert_eq!(out.scanned_dirs, 2);
}

#[test]
fn matched_directory_is_reported_once_and_not_entered() {
    let tree = Tree {
        dirs: vec![("/p", vec!["node_modules"]), ("/p/node_modules", vec!["node_modules"])],
        files: vec!["/p/package.json"],
    };
    let (out, events) = walk(&tree, &["/p"], ScanScope::All, &["/p"]);
    assert_eq!(out.items.len(), 1);
    assert_eq!(out.items[0].path.display(), "/p/node_modules");
    assert_eq!(out.items[0].project_root.as_ref().unwrap().display(), "/p");
    assert_eq!(out.items[0].bytes, None);
    assert_eq!(out.scanned_dirs, 2);
    assert_eq!(events.len(), 1);
}

#[test]
fn entries_followed_and_extensions() {
    assert!(follows_entry(true, false));
    assert!(!follows_entry(true, true));
    assert!(!follows_entry(false, false));
    assert!(has_extension("App.csproj", "csproj"));
    assert!(has_extension("a.b.c", "c"));
    assert!(!has_extension("a.b.c", "b.c"));
    assert!(!has_extension(".csproj", "csproj"));
    assert!(!has_extension("csproj", "csproj"));
    assert!(!has_extension("..", ""));
    assert!(has_extension("a.", ""));
}

struct RecordingBackend {
    calls: Arc<Mutex<Vec<(String, DeleteStrategy)>>>,
}

impl DeletionBackend for RecordingBackend {
    fn delete(&self, path: &FsPath, strategy: DeleteStrategy) -> Result<(), RepoSweepError> {
        self.calls.lock().expect("lock").push((path.display(), strategy));
        Ok(())
    }
}

#[test]
fn delete_service_hands_each_path_and_the_strategy_to_the_backend() {
    let calls = Arc::new(Mutex::new(Vec::new()));
    let service = DeleteService::new(RecordingBackend { calls: calls.clone() });
    let result = service.delete(DeleteRequest {
        items: vec![scan_item("/x", Some(1)), scan_item("/y", Some(2))],
        strategy: DeleteStrategy::Trash,
    });
    let seen = calls.lock().expect("lock").clone();
    assert_eq!(seen, vec![("/x".to_string(), DeleteStrategy::Trash), ("/y".to_string(), DeleteStrategy::Trash)]);
    assert_eq!(result.deleted.iter().map(|p| p.display()).collect::<Vec<_>>(), vec!["/x", "/y"]);
    assert_eq!(result.reclaimed_bytes, 3);
}

struct MemoryStore {
    saved: Arc<Mutex<Vec<Config>>>,
    refuse_save: bool,
    asked_paths: Arc<Mutex<usize>>,
}

impl ConfigStore for MemoryStore {
    fn load(&self) -> Result<Config, RepoSweepError> {
        Err(RepoSweepError::Config("missing".into()))
    }

    fn save(&self, config: &Config) -> Result<(), RepoSweepError> {
        self.saved.lock().expect("lock").push(config.clone());
        if self.refuse_save {
            Err(RepoSweepError::Config("read-only".into()))
        } else {
            Ok(())
        }
    }

    fn paths(&self) -> Result<ConfigPaths, RepoSweepError> {
        *self.asked_paths.lock().expect("lock") += 1;
        Ok(ConfigPaths::in_config_dir(FsPath::parse("/cfg")))
    }
}

#[test]
fn config_service_saves_the_default_then_answers_the_paths() {
    let saved = Arc::new(Mutex::new(Vec::new()));
    let asked = Arc::new(Mutex::new(0));
    let service = ConfigService::new(MemoryStore { saved: saved.clone(), refuse_save: false, asked_paths: asked.clone() });
    let paths = service.save_default().expect("saved");
    assert_eq!(paths.config_file.display(), "/cfg/config.toml");
    assert_eq!(saved.lock().expect("lock").len(), 1);
    assert_eq!(saved.lock().expect("lock")[0].default_delete_strategy, Config::default().default_delete_strategy);
    assert_eq!(*asked.lock().expect("lock"), 1);
    let loaded = service.load_or_default();
    assert!(loaded.custom_rules.is_empty());
    assert_eq!(loaded.protected_paths.len(), Config::default().protected_paths.len());

    let saved = Arc::new(Mutex::new(Vec::new()));
    let asked = Arc::new(Mutex::new(0));
    let service = ConfigService::new(MemoryStore { saved: saved.clone(), refuse_save: true, asked_paths: asked.clone() });
    match service.save_default() {
        Err(e) => assert_eq!(e.message(), "config error: read-only"),
        Ok(_) => panic!("a refused save is an error"),
    }
    assert_eq!(saved.lock().expect("lock").len(), 1);
    assert_eq!(*asked.lock().expect("lock"), 0);
}

#[test]
fn trimming_drops_unicode_white_space() {
    assert_eq!(trim("\u{3000}\u{a0} tidy\t\u{2029}"), "tidy");
    assert_eq!(trim("\u{200b}x"), "\u{200b}x");
}
