//! The state of the terminal interface and how it changes.
use vstd::prelude::*;
use vstd::string::*;

use crate::domain::{path_views, total_size, DeleteResult, DeleteStrategy, ScanEvent, ScanReport};
use crate::fspath::{parent_spec, parse_spec, FsPath};
use crate::results::{delete_applied, shift_index, shifted, surviving, ResultsState, SummaryState};
use crate::delete::shows_error;
use crate::error::RepoSweepError;
use crate::storage::AppState;
use crate::text::{
    chars_lt, lemma_chars_lt_irreflexive, lemma_chars_lt_transitive, owned,
    push_str, text_lt, trim, trimmed,
};

verus! {

/// The screen that is shown.
#[derive(Clone, Copy, Debug, PartialEq, Eq, Structural)]
pub enum Screen {
    Home,
    Scanning,
    Results,
    Error,
}

/// How the home screen takes the path to scan.
#[derive(Clone, Copy, Debug, PartialEq, Eq, Structural)]
pub enum HomeMode {
    PathEntry,
    Browser,
}

/// A directory in the browser, with the label it is listed under.
#[derive(Clone, Debug)]
pub struct BrowserEntry {
    pub path: FsPath,
    pub label: String,
}

/// Where the browser stood in a directory.
#[derive(Clone, Copy, Debug, Default, PartialEq, Eq, Structural)]
pub struct BrowserPosition {
    pub selected: usize,
    pub offset: usize,
}

/// The positions the browser had in the directories it left.
#[derive(Clone, Debug)]
pub struct BrowserHistory {
    entries: Vec<(FsPath, BrowserPosition)>,
}

impl View for BrowserHistory {
    type V = Map<Seq<Seq<char>>, BrowserPosition>;

    closed spec fn view(&self) -> Map<Seq<Seq<char>>, BrowserPosition> {
        history_map(self.entries@)
    }
}

/// The map of an association list; later entries win.
pub open spec fn history_map(entries: Seq<(FsPath, BrowserPosition)>) -> Map<
    Seq<Seq<char>>,
    BrowserPosition,
>
    decreases entries.len(),
{
    if entries.len() == 0 {
        Map::empty()
    } else {
        history_map(entries.drop_last()).insert(entries.last().0@, entries.last().1)
    }
}

impl BrowserHistory {
    /// No positions.
    pub fn new() -> (r: BrowserHistory)
        ensures
            r@ == Map::<Seq<Seq<char>>, BrowserPosition>::empty(),
    {
        BrowserHistory { entries: Vec::new() }
    }

    /// Remembers `position` for `path`.
    pub fn insert(&mut self, path: FsPath, position: BrowserPosition)
        ensures
            final(self)@ == old(self)@.insert(path@, position),
    {
        let ghost before = self.entries@;
        self.entries.push((path, position));
        assert(self.entries@.drop_last() =~= before);
    }

    /// The position remembered for `path`.
    pub fn get(&self, path: &FsPath) -> (r: Option<BrowserPosition>)
        ensures
            r == (if self@.contains_key(path@) {
                Some(self@[path@])
            } else {
                None
            }),
    {
        let mut i: usize = self.entries.len();
        assert(self.entries@.take(i as int) =~= self.entries@);
        while i > 0
            invariant
                i <= self.entries@.len(),
                forall|j: int| i <= j < self.entries@.len() ==> self.entries@[j].0@ != path@,
                history_map(self.entries@).contains_key(path@) == history_map(
                    self.entries@.take(i as int),
                ).contains_key(path@),
                history_map(self.entries@).contains_key(path@) ==> history_map(self.entries@)[path@]
                    == history_map(self.entries@.take(i as int))[path@],
            decreases i,
        {
            let ghost pre = self.entries@.take(i as int);
            assert(pre.drop_last() =~= self.entries@.take(i - 1));
            if self.entries[i - 1].0.same_as(path) {
                return Some(self.entries[i - 1].1);
            }
            i = i - 1;
        }
        assert(self.entries@.take(0) =~= Seq::<(FsPath, BrowserPosition)>::empty());
        None
    }
}

/// The home screen: the typed path, the directory browser and the recent
/// paths.
#[derive(Clone, Debug)]
pub struct HomeState {
    pub input: String,
    pub browser_path: FsPath,
    pub browser_entries: Vec<BrowserEntry>,
    pub browser_selected: usize,
    pub browser_offset: usize,
    pub browser_history: BrowserHistory,
    pub recent_paths: Vec<FsPath>,
    pub mode: HomeMode,
}

/// Progress of the running scan.
#[derive(Clone, Debug)]
pub struct ScanState {
    pub root: Option<FsPath>,
    pub current_path: Option<FsPath>,
    pub scanned_dirs: usize,
    pub matched_items: usize,
    pub warnings: Vec<String>,
}

impl Default for ScanState {
    fn default() -> (r: Self)
        ensures
            r.root is None,
            r.current_path is None,
            r.scanned_dirs == 0,
            r.matched_items == 0,
            r.warnings@.len() == 0,
    {
        ScanState {
            root: None,
            current_path: None,
            scanned_dirs: 0,
            matched_items: 0,
            warnings: Vec::new(),
        }
    }
}

/// The whole interface.
pub struct AppModel {
    pub should_quit: bool,
    pub tick: u64,
    pub screen: Screen,
    pub home: HomeState,
    pub scan: ScanState,
    pub results: Option<ResultsState>,
    pub summary: Option<SummaryState>,
    pub last_error: Option<String>,
}

/// The most recent paths after `path` was scanned: `path` first, then the
/// earlier ones other than `path`, ten at most.
pub open spec fn remembered(recent: Seq<Seq<Seq<char>>>, path: Seq<Seq<char>>) -> Seq<
    Seq<Seq<char>>,
> {
    let all = seq![path] + without(recent, path);
    if all.len() > 10 {
        all.take(10)
    } else {
        all
    }
}

/// `s` without the occurrences of `x`.
pub open spec fn without<T>(s: Seq<T>, x: T) -> Seq<T>
    decreases s.len(),
{
    if s.len() == 0 {
        s
    } else if s.last() == x {
        without(s.drop_last(), x)
    } else {
        without(s.drop_last(), x).push(s.last())
    }
}

/// The paths of a list with the text each shows as.
pub open spec fn path_entries(paths: Seq<FsPath>) -> Seq<(Seq<Seq<char>>, Seq<char>)> {
    paths.map_values(|p: FsPath| (p@, p.shown()))
}

/// `s` without the entries whose path is `x`.
pub open spec fn without_path(s: Seq<(Seq<Seq<char>>, Seq<char>)>, x: Seq<Seq<char>>) -> Seq<
    (Seq<Seq<char>>, Seq<char>),
>
    decreases s.len(),
{
    if s.len() == 0 {
        s
    } else if s.last().0 == x {
        without_path(s.drop_last(), x)
    } else {
        without_path(s.drop_last(), x).push(s.last())
    }
}

/// The recent paths, with their texts, after the path `entry` was scanned:
/// it comes first as given, then the earlier ones with another path as they
/// were shown, ten at most.
pub open spec fn remembered_entries(
    recent: Seq<(Seq<Seq<char>>, Seq<char>)>,
    entry: (Seq<Seq<char>>, Seq<char>),
) -> Seq<(Seq<Seq<char>>, Seq<char>)> {
    let all = seq![entry] + without_path(recent, entry.0);
    if all.len() > 10 {
        all.take(10)
    } else {
        all
    }
}

/// `min(a, b)` on integers.
pub open spec fn min_int(a: int, b: int) -> int {
    if a < b {
        a
    } else {
        b
    }
}

/// Where the browser stands in a directory of `len` entries, given the
/// position remembered there (if any): that position, kept within the list.
pub open spec fn restored(saved: Option<BrowserPosition>, len: int) -> BrowserPosition {
    let p = match saved {
        Some(p) => p,
        None => BrowserPosition { selected: 0, offset: 0 },
    };
    let top = if len > 0 {
        len - 1
    } else {
        0
    };
    BrowserPosition {
        selected: min_int(p.selected as int, top) as usize,
        offset: min_int(p.offset as int, top) as usize,
    }
}

impl AppModel {
    /// The interface as it starts: the browser at `initial_path`, else at the
    /// last browsed directory, else at `current_dir`; the typed path is
    /// `initial_path` when it exists (`initial_exists`), else the browser's
    /// directory. The browser's entries come with `refresh_browser`.
    pub fn new(
        initial_path: Option<FsPath>,
        app_state: &AppState,
        initial_exists: bool,
        current_dir: FsPath,
    ) -> (r: Self)
        ensures
            r.home.browser_path@ == match initial_path {
                Some(p) => p@,
                None => match app_state.last_browser_path {
                    Some(p) => p@,
                    None => current_dir@,
                },
            },
            r.home.browser_path.written() == match initial_path {
                Some(p) => p.written(),
                None => match app_state.last_browser_path {
                    Some(p) => p.written(),
                    None => current_dir.written(),
                },
            },
            r.home.input@ == match initial_path {
                Some(p) => if initial_exists {
                    p.shown()
                } else {
                    r.home.browser_path.shown()
                },
                None => r.home.browser_path.shown(),
            },
            path_views(r.home.recent_paths@) == path_views(app_state.recent_paths@),
            path_entries(r.home.recent_paths@) == path_entries(app_state.recent_paths@),
            r.home.mode == HomeMode::PathEntry,
            r.home.browser_entries@.len() == 0,
            r.home.browser_selected == 0,
            r.home.browser_offset == 0,
            r.home.browser_history@ == Map::<Seq<Seq<char>>, BrowserPosition>::empty(),
            r.screen == Screen::Home,
            !r.should_quit,
            r.tick == 0,
            r.results is None,
            r.summary is None,
            r.last_error is None,
            r.scan.root is None,
            r.scan.current_path is None,
            r.scan.scanned_dirs == 0,
            r.scan.matched_items == 0,
            r.scan.warnings@.len() == 0,
    {
        let browser_path = match &initial_path {
            Some(p) => p.duplicate(),
            None => match &app_state.last_browser_path {
                Some(p) => p.duplicate(),
                None => current_dir,
            },
        };
        let input = match &initial_path {
            Some(p) => if initial_exists {
                p.display()
            } else {
                browser_path.display()
            },
            None => browser_path.display(),
        };
        let mut recent: Vec<FsPath> = Vec::new();
        let n = app_state.recent_paths.len();
        let mut i: usize = 0;
        while i < n
            invariant
                n == app_state.recent_paths@.len(),
                i <= n,
                path_views(recent@) == path_views(app_state.recent_paths@).take(i as int),
                path_entries(recent@) == path_entries(app_state.recent_paths@).take(i as int),
            decreases n - i,
        {
            let copy = app_state.recent_paths[i].duplicate();
            let ghost before = recent@;
            recent.push(copy);
            assert(path_views(recent@) =~= path_views(before).push(copy@));
            assert(path_views(recent@) =~= path_views(app_state.recent_paths@).take(i + 1));
            assert(path_entries(recent@) =~= path_entries(before).push((copy@, copy.shown())));
            assert(path_entries(recent@) =~= path_entries(app_state.recent_paths@).take(i + 1));
            i = i + 1;
        }
        assert(path_views(app_state.recent_paths@).take(n as int) =~= path_views(
            app_state.recent_paths@,
        ));
        assert(path_entries(app_state.recent_paths@).take(n as int) =~= path_entries(
            app_state.recent_paths@,
        ));
        AppModel {
            should_quit: false,
            tick: 0,
            screen: Screen::Home,
            home: HomeState {
                input,
                browser_path,
                browser_entries: Vec::new(),
                browser_selected: 0,
                browser_offset: 0,
                browser_history: BrowserHistory::new(),
                recent_paths: recent,
                mode: HomeMode::PathEntry,
            },
            scan: ScanState::default(),
            results: None,
            summary: None,
            last_error: None,
        }
    }

    /// Shows `entries`, the listing of the browser's directory, at the
    /// position remembered for that directory (or the top), kept within the
    /// list.
    pub fn refresh_browser(&mut self, entries: Vec<BrowserEntry>)
        ensures
            final(self).home.browser_entries == entries,
            final(self).home.browser_selected == restored(
                old(self).saved_position(),
                entries@.len() as int,
            ).selected,
            final(self).home.browser_offset == restored(
                old(self).saved_position(),
                entries@.len() as int,
            ).offset,
            final(self).home.browser_path == old(self).home.browser_path,
            final(self).home.browser_history@ == old(self).home.browser_history@,
            final(self).home.input == old(self).home.input,
            final(self).home.recent_paths == old(self).home.recent_paths,
            final(self).home.mode == old(self).home.mode,
    {
        self.home.browser_entries = entries;
        self.restore_browser_position();
    }

    /// The position remembered for the browser's current directory.
    pub open spec fn saved_position(&self) -> Option<BrowserPosition> {
        if self.home.browser_history@.contains_key(self.home.browser_path@) {
            Some(self.home.browser_history@[self.home.browser_path@])
        } else {
            None
        }
    }

    /// Switches how the home screen takes the path.
    pub fn switch_home_mode(&mut self, mode: HomeMode)
        ensures
            *final(self) == (AppModel { home: HomeState { mode, ..old(self).home }, ..*old(self) }),
    {
        self.home.mode = mode;
    }

    /// Moves the browser's selection by `delta` when the browser is shown.
    pub fn move_home_selection(&mut self, delta: isize)
        requires
            old(self).home.browser_selected <= isize::MAX,
            isize::MIN <= old(self).home.browser_selected + delta <= isize::MAX,
            old(self).home.browser_entries@.len() <= isize::MAX + 1,
        ensures
            final(self).home.browser_selected == if old(self).home.mode == HomeMode::Browser {
                shifted(
                    old(self).home.browser_selected as int,
                    old(self).home.browser_entries@.len() as int,
                    delta as int,
                )
            } else {
                old(self).home.browser_selected as int
            },
            *final(self) == (AppModel {
                home: HomeState { browser_selected: final(self).home.browser_selected, ..old(self).home },
                ..*old(self)
            }),
    {
        if self.home.mode == HomeMode::Browser {
            self.home.browser_selected = shift_index(
                self.home.browser_selected,
                self.home.browser_entries.len(),
                delta,
            );
        }
    }

    /// Opens the selected entry of the browser: remembers where the browser
    /// stood in the directory it leaves, then moves to the entry's directory
    /// and types its path. Answers whether it moved; the entries of the new
    /// directory are then to be given with `refresh_browser`.
    pub fn enter_browser(&mut self) -> (moved: bool)
        ensures
            final(self).home.browser_history@ == old(self).home.browser_history@.insert(
                old(self).home.browser_path@,
                BrowserPosition {
                    selected: old(self).home.browser_selected,
                    offset: old(self).home.browser_offset,
                },
            ),
            moved == (old(self).home.browser_selected < old(self).home.browser_entries@.len()),
            moved ==> final(self).home.browser_path@ == old(self).home.browser_entries@[old(
                self,
            ).home.browser_selected as int].path@,
            moved ==> final(self).home.input@ == final(self).home.browser_path.shown(),
            !moved ==> final(self).home.browser_path == old(self).home.browser_path,
            !moved ==> final(self).home.input == old(self).home.input,
            *final(self) == (AppModel {
                home: HomeState {
                    browser_history: final(self).home.browser_history,
                    browser_path: final(self).home.browser_path,
                    input: final(self).home.input,
                    ..old(self).home
                },
                ..*old(self)
            }),
    {
        self.save_browser_position();
        if self.home.browser_selected < self.home.browser_entries.len() {
            let target = self.home.browser_entries[self.home.browser_selected].path.duplicate();
            self.home.input = target.display();
            self.home.browser_path = target;
            true
        } else {
            false
        }
    }

    /// Puts `path` first among the recent paths, drops its other
    /// occurrences, and keeps ten at most.
    pub fn remember_recent_path(&mut self, path: &FsPath)
        ensures
            path_views(final(self).home.recent_paths@) == remembered(
                path_views(old(self).home.recent_paths@),
                path@,
            ),
            path_entries(final(self).home.recent_paths@) == remembered_entries(
                path_entries(old(self).home.recent_paths@),
                (path@, path.shown()),
            ),
            *final(self) == (AppModel {
                home: HomeState { recent_paths: final(self).home.recent_paths, ..old(self).home },
                ..*old(self)
            }),
    {
        let ghost old_views = path_views(self.home.recent_paths@);
        let ghost old_entries = path_entries(self.home.recent_paths@);
        let ghost first = (path@, path.shown());
        let mut kept: Vec<FsPath> = Vec::new();
        kept.push(path.duplicate());
        let n = self.home.recent_paths.len();
        let mut i: usize = 0;
        assert(path_views(kept@) =~= seq![path@] + without(old_views.take(0), path@));
        assert(path_entries(kept@) =~= seq![first] + without_path(old_entries.take(0), path@));
        while i < n
            invariant
                n == self.home.recent_paths@.len(),
                i <= n,
                old_views == path_views(self.home.recent_paths@),
                path_views(kept@) == seq![path@] + without(old_views.take(i as int), path@),
                old_entries == path_entries(self.home.recent_paths@),
                first == (path@, path.shown()),
                path_entries(kept@) == seq![first] + without_path(old_entries.take(i as int), path@),
            decreases n - i,
        {
            assert(old_views.take(i + 1).drop_last() =~= old_views.take(i as int));
            assert(old_views.take(i + 1).last() == self.home.recent_paths@[i as int]@);
            assert(old_entries.take(i + 1).drop_last() =~= old_entries.take(i as int));
            assert(old_entries.take(i + 1).last() == (
                self.home.recent_paths@[i as int]@,
                self.home.recent_paths@[i as int].shown(),
            ));
            if !self.home.recent_paths[i].same_as(path) {
                let copy = self.home.recent_paths[i].duplicate();
                let ghost before = kept@;
                kept.push(copy);
                assert(path_views(kept@) =~= path_views(before).push(copy@));
                assert(path_views(kept@) =~= seq![path@] + without(old_views.take(i + 1), path@));
                assert(path_entries(kept@) =~= path_entries(before).push((copy@, copy.shown())));
                assert(path_entries(kept@) =~= seq![first] + without_path(
                    old_entries.take(i + 1),
                    path@,
                ));
            }
            i = i + 1;
        }
        assert(old_views.take(n as int) =~= old_views);
        assert(old_entries.take(n as int) =~= old_entries);
        kept.truncate(10);
        assert(path_views(kept@) =~= remembered(old_views, path@));
        assert(path_entries(kept@) =~= remembered_entries(old_entries, first));
        self.home.recent_paths = kept;
    }

    fn save_browser_position(&mut self)
        ensures
            final(self).home.browser_history@ == old(self).home.browser_history@.insert(
                old(self).home.browser_path@,
                BrowserPosition {
                    selected: old(self).home.browser_selected,
                    offset: old(self).home.browser_offset,
                },
            ),
            *final(self) == (AppModel {
                home: HomeState { browser_history: final(self).home.browser_history, ..old(self).home },
                ..*old(self)
            }),
    {
        let position = BrowserPosition {
            selected: self.home.browser_selected,
            offset: self.home.browser_offset,
        };
        let path = self.home.browser_path.duplicate();
        self.home.browser_history.insert(path, position);
    }

    fn restore_browser_position(&mut self)
        ensures
            final(self).home.browser_selected == restored(
                old(self).saved_position(),
                old(self).home.browser_entries@.len() as int,
            ).selected,
            final(self).home.browser_offset == restored(
                old(self).saved_position(),
                old(self).home.browser_entries@.len() as int,
            ).offset,
            final(self).home.browser_entries == old(self).home.browser_entries,
            final(self).home.browser_path == old(self).home.browser_path,
            final(self).home.browser_history@ == old(self).home.browser_history@,
            final(self).home.input == old(self).home.input,
            final(self).home.recent_paths == old(self).home.recent_paths,
            final(self).home.mode == old(self).home.mode,
    {
        let position = match self.home.browser_history.get(&self.home.browser_path) {
            Some(p) => p,
            None => BrowserPosition { selected: 0, offset: 0 },
        };
        let len = self.home.browser_entries.len();
        let top = if len > 0 {
            len - 1
        } else {
            0
        };
        self.home.browser_selected = if position.selected < top {
            position.selected
        } else {
            top
        };
        self.home.browser_offset = if position.offset < top {
            position.offset
        } else {
            top
        };
    }

    /// The directory that the typed path names: the trimmed text read as a
    /// path. A blank text shows `Enter a path to scan.` as an error and
    /// names nothing.
    pub fn scan_target(&mut self) -> (r: Option<FsPath>)
        ensures
            trimmed(old(self).home.input@).len() == 0 ==> r is None && (final(self).last_error
                matches Some(m) && m@ == "Enter a path to scan."@) && final(self).screen
                == Screen::Error,
            trimmed(old(self).home.input@).len() > 0 ==> (r matches Some(p) && p@ == parse_spec(
                trimmed(old(self).home.input@),
            ) && p.written() == Some(trimmed(old(self).home.input@))) && *final(self) == *old(self),
            *final(self) == (AppModel {
                last_error: final(self).last_error,
                screen: final(self).screen,
                ..*old(self)
            }),
    {
        let text = trim(self.home.input.as_str());
        if text.as_str().unicode_len() == 0 {
            proof {
                reveal_strlit("Enter a path to scan.");
            }
            self.set_error(owned("Enter a path to scan."));
            return None;
        }
        Some(FsPath::parse(text.as_str()))
    }

    /// Refuses to scan `root`, which is not a readable directory, with an
    /// error that names it.
    pub fn reject_scan_target(&mut self, root: &FsPath)
        ensures
            (final(self).last_error matches Some(m) && m@ == "Path is not a readable directory: "@
                + root.shown()),
            *final(self) == (AppModel {
                last_error: final(self).last_error,
                screen: Screen::Error,
                ..*old(self)
            }),
    {
        let mut message = owned("Path is not a readable directory: ");
        let shown = root.display();
        push_str(&mut message, shown.as_str());
        self.set_error(message);
    }

    /// Takes `root` as the directory to scan: the browser moves there and
    /// shows `entries` (its listing), `root` becomes the most recent path,
    /// and the remembered state takes the recent paths and `root` as the
    /// last browsed directory.
    pub fn accept_scan_root(&mut self, root: FsPath, entries: Vec<BrowserEntry>, app_state: &mut AppState)
        ensures
            final(self).home.browser_path@ == root@,
            final(self).home.browser_entries == entries,
            path_views(final(self).home.recent_paths@) == remembered(
                path_views(old(self).home.recent_paths@),
                root@,
            ),
            path_views(final(app_state).recent_paths@) == path_views(final(self).home.recent_paths@),
            final(self).home.browser_path.written() == root.written(),
            path_entries(final(self).home.recent_paths@) == remembered_entries(
                path_entries(old(self).home.recent_paths@),
                (root@, root.shown()),
            ),
            path_entries(final(app_state).recent_paths@) == path_entries(
                final(self).home.recent_paths@,
            ),
            final(app_state).last_browser_path == Some(root),
            final(self).home.mode == old(self).home.mode,
            final(self).home.input == old(self).home.input,
    {
        self.home.browser_path = root.duplicate();
        self.refresh_browser(entries);
        self.remember_recent_path(&root);
        let mut recent: Vec<FsPath> = Vec::new();
        let n = self.home.recent_paths.len();
        let mut i: usize = 0;
        while i < n
            invariant
                n == self.home.recent_paths@.len(),
                i <= n,
                path_views(recent@) == path_views(self.home.recent_paths@).take(i as int),
                path_entries(recent@) == path_entries(self.home.recent_paths@).take(i as int),
            decreases n - i,
        {
            let copy = self.home.recent_paths[i].duplicate();
            let ghost before = recent@;
            recent.push(copy);
            assert(path_views(recent@) =~= path_views(before).push(copy@));
            assert(path_views(recent@) =~= path_views(self.home.recent_paths@).take(i + 1));
            assert(path_entries(recent@) =~= path_entries(before).push((copy@, copy.shown())));
            assert(path_entries(recent@) =~= path_entries(self.home.recent_paths@).take(i + 1));
            i = i + 1;
        }
        assert(path_views(self.home.recent_paths@).take(n as int) =~= path_views(
            self.home.recent_paths@,
        ));
        assert(path_entries(self.home.recent_paths@).take(n as int) =~= path_entries(
            self.home.recent_paths@,
        ));
        app_state.recent_paths = recent;
        app_state.last_browser_path = Some(root);
    }

    /// Shows `message` on the error screen.
    pub fn set_error(&mut self, message: String)
        ensures
            *final(self) == (AppModel {
                last_error: Some(message),
                screen: Screen::Error,
                ..*old(self)
            }),
    {
        self.last_error = Some(message);
        self.screen = Screen::Error;
    }

    /// Dismisses the error and returns home.
    pub fn clear_error(&mut self)
        ensures
            *final(self) == (AppModel { last_error: None, screen: Screen::Home, ..*old(self) }),
    {
        self.last_error = None;
        self.screen = Screen::Home;
    }

    /// Starts showing a scan of `root`: results, summary and error go, the
    /// progress starts from zero.
    pub fn begin_scan(&mut self, root: FsPath)
        ensures
            final(self).screen == Screen::Scanning,
            final(self).summary is None,
            final(self).results is None,
            final(self).last_error is None,
            (final(self).scan.root matches Some(r) && r@ == root@),
            final(self).scan.current_path is None,
            final(self).scan.scanned_dirs == 0,
            final(self).scan.matched_items == 0,
            final(self).scan.warnings@.len() == 0,
            *final(self) == (AppModel {
                screen: Screen::Scanning,
                summary: None,
                results: None,
                last_error: None,
                scan: final(self).scan,
                ..*old(self)
            }),
    {
        self.screen = Screen::Scanning;
        self.summary = None;
        self.results = None;
        self.last_error = None;
        self.scan = ScanState {
            root: Some(root),
            current_path: None,
            scanned_dirs: 0,
            matched_items: 0,
            warnings: Vec::new(),
        };
    }

    /// Shows why the scan failed and forgets its progress.
    pub fn fail_scan(&mut self, error: &RepoSweepError)
        ensures
            (final(self).last_error matches Some(m) && shows_error(m@, *error)),
            final(self).screen == Screen::Error,
            final(self).scan.root is None,
            final(self).scan.current_path is None,
            final(self).scan.scanned_dirs == 0,
            final(self).scan.matched_items == 0,
            final(self).scan.warnings@.len() == 0,
            final(self).home == old(self).home,
            final(self).results == old(self).results,
    {
        self.set_error(error.message());
        self.scan = ScanState::default();
    }

    /// Shows the results of a finished scan.
    pub fn finish_scan(&mut self, report: ScanReport)
        ensures
            (final(self).results matches Some(r) && r.report == report && r.checked@.is_empty()
                && r.selected_visible == 0 && r.pending_delete is None),
            final(self).scan.root is None,
            final(self).scan.scanned_dirs == 0,
            final(self).screen == Screen::Results,
    {
        self.results = Some(ResultsState::new(report));
        self.scan = ScanState::default();
        self.screen = Screen::Results;
    }

    /// Shows the summary of a finished deletion and takes the deleted items
    /// out of the results; the pending deletion is gone.
    pub fn finish_delete(&mut self, result: DeleteResult, strategy: DeleteStrategy)
        requires
            result.deleted@.len() > 0 ==> (old(self).results matches Some(r) ==> total_size(
                r.report.items@,
            ) <= u64::MAX),
        ensures
            (final(self).summary matches Some(s) && s.result == result && s.strategy == strategy),
            final(self).screen == Screen::Results,
            old(self).results is None ==> final(self).results is None,
            old(self).results is Some ==> (final(self).results matches Some(r)
                && r.pending_delete is None),
            old(self).results is Some ==> (final(self).results matches Some(r) && r.report.items@
                == (if result.deleted@.len() == 0 {
                old(self).results.unwrap().report.items@
            } else {
                surviving(old(self).results.unwrap().report.items@, path_views(result.deleted@))
            })),
            old(self).results is Some && result.deleted@.len() > 0 ==> (final(self).results matches Some(r)
                && r.checked@.is_empty() && r.report.totals.bytes == total_size(r.report.items@)
                && r.report.totals.items == r.report.items@.len()),
            old(self).results matches Some(r0) ==> (final(self).results matches Some(r1)
                && r1.pending_delete is None && delete_applied(
                r0,
                ResultsState { pending_delete: r0.pending_delete, ..r1 },
                result,
            )),
            old(self).results is Some && result.deleted@.len() == 0 ==> final(self).results == Some(
                ResultsState { pending_delete: None, ..old(self).results.unwrap() },
            ),
            *final(self) == (AppModel {
                summary: final(self).summary,
                results: final(self).results,
                screen: Screen::Results,
                ..*old(self)
            }),
    {
        self.summary = Some(SummaryState { result, strategy });
        let taken = self.results.take();
        match taken {
            Some(mut results) => {
                match &self.summary {
                    Some(summary) => {
                        results.apply_delete_result(&summary.result);
                    },
                    None => {},
                }
                results.pending_delete = None;
                self.results = Some(results);
            },
            None => {},
        }
        self.screen = Screen::Results;
    }
}

/// The text a scan warning is listed with: the path and the message, or
/// the message alone.
pub open spec fn warning_text(path: Option<Seq<char>>, message: Seq<char>) -> Seq<char> {
    match path {
        Some(p) => p + ": "@ + message,
        None => message,
    }
}

/// Takes in a progress notice of the running scan: a directory entered
/// counts and becomes the current path, a match counts, a warning is
/// listed; the other notices change nothing.
pub fn handle_scan_event(model: &mut AppModel, event: ScanEvent)
    ensures
        match event {
            ScanEvent::EnteredPath { path } => {
                &&& final(model).scan.scanned_dirs == if old(model).scan.scanned_dirs == usize::MAX {
                    usize::MAX as int
                } else {
                    old(model).scan.scanned_dirs + 1
                }
                &&& final(model).scan.current_path == Some(path)
                &&& final(model).scan.matched_items == old(model).scan.matched_items
                &&& final(model).scan.warnings == old(model).scan.warnings
                &&& final(model).scan.root == old(model).scan.root
            },
            ScanEvent::MatchFound { .. } => {
                &&& final(model).scan.matched_items == if old(model).scan.matched_items
                    == usize::MAX {
                    usize::MAX as int
                } else {
                    old(model).scan.matched_items + 1
                }
                &&& final(model).scan.scanned_dirs == old(model).scan.scanned_dirs
                &&& final(model).scan.warnings == old(model).scan.warnings
                &&& final(model).scan.current_path == old(model).scan.current_path
                &&& final(model).scan.root == old(model).scan.root
            },
            ScanEvent::Warning(w) => {
                &&& final(model).scan.warnings@.len() == old(model).scan.warnings@.len() + 1
                &&& final(model).scan.warnings@.drop_last() == old(model).scan.warnings@
                &&& final(model).scan.warnings@.last()@ == warning_text(
                    match w.path {
                        Some(p) => Some(p.shown()),
                        None => None,
                    },
                    w.message@,
                )
                &&& final(model).scan.scanned_dirs == old(model).scan.scanned_dirs
                &&& final(model).scan.matched_items == old(model).scan.matched_items
                &&& final(model).scan.current_path == old(model).scan.current_path
                &&& final(model).scan.root == old(model).scan.root
            },
            _ => final(model).scan == old(model).scan,
        },
        *final(model) == (AppModel { scan: final(model).scan, ..*old(model) }),
{
    match event {
        ScanEvent::Started { .. } => {},
        ScanEvent::EnteredPath { path } => {
            model.scan.scanned_dirs = model.scan.scanned_dirs.saturating_add(1);
            model.scan.current_path = Some(path);
        },
        ScanEvent::MatchFound { .. } => {
            model.scan.matched_items = model.scan.matched_items.saturating_add(1);
        },
        ScanEvent::Sized { .. } => {},
        ScanEvent::Warning(warning) => {
            let text = match &warning.path {
                Some(path) => {
                    let mut out = path.display();
                    push_str(&mut out, ": ");
                    push_str(&mut out, warning.message.as_str());
                    out
                },
                None => warning.message,
            };
            model.scan.warnings.push(text);
        },
        ScanEvent::Finished { .. } => {},
    }
}


/// The plain value of a browser entry: its path and its label.
pub open spec fn entry_view(e: BrowserEntry) -> (Seq<Seq<char>>, Seq<char>) {
    (e.path@, e.label@)
}

/// The plain values of browser entries.
pub open spec fn entry_views(es: Seq<BrowserEntry>) -> Seq<(Seq<Seq<char>>, Seq<char>)> {
    es.map_values(|e: BrowserEntry| entry_view(e))
}

/// Whether entries are in order of their labels (by code point).
pub open spec fn labels_sorted(es: Seq<(Seq<Seq<char>>, Seq<char>)>) -> bool {
    forall|i: int, j: int| 0 <= i < j < es.len() ==> !chars_lt(es[j].1, es[i].1)
}

impl BrowserEntry {
    /// A copy of this entry.
    pub fn duplicate(&self) -> (r: BrowserEntry)
        ensures
            entry_view(r) == entry_view(*self),
    {
        BrowserEntry { path: self.path.duplicate(), label: self.label.clone() }
    }
}

/// The browser's listing of the directory `path`, given its subdirectories
/// `dirs`: first `..` for the parent, when there is one, then the
/// subdirectories in order of their labels.
pub fn browser_listing(path: &FsPath, dirs: Vec<BrowserEntry>) -> (r: Vec<BrowserEntry>)
    ensures
        ({
            let head: Seq<(Seq<Seq<char>>, Seq<char>)> = match parent_spec(path@) {
                Some(p) => seq![(p, ".."@)],
                None => Seq::empty(),
            };
            &&& entry_views(r@).take(head.len() as int) == head
            &&& entry_views(r@).skip(head.len() as int).to_multiset() == entry_views(dirs@).to_multiset()
            &&& labels_sorted(entry_views(r@).skip(head.len() as int))
        }),
{
    broadcast use vstd::seq_lib::group_to_multiset_ensures;

    let sorted = sort_by_label(&dirs);
    let mut out: Vec<BrowserEntry> = Vec::new();
    let ghost head: Seq<(Seq<Seq<char>>, Seq<char>)> = match parent_spec(path@) {
        Some(p) => seq![(p, ".."@)],
        None => Seq::empty(),
    };
    match path.parent() {
        Some(parent) => {
            proof {
                reveal_strlit("..");
            }
            out.push(BrowserEntry { path: parent, label: owned("..") });
        },
        None => {},
    }
    assert(entry_views(out@) =~= head);
    let n = sorted.len();
    let mut i: usize = 0;
    while i < n
        invariant
            n == sorted@.len(),
            i <= n,
            entry_views(out@) == head + entry_views(sorted@).take(i as int),
        decreases n - i,
    {
        let e = sorted[i].duplicate();
        let ghost before = out@;
        out.push(e);
        assert(entry_views(out@) =~= entry_views(before).push(entry_view(e)));
        assert(entry_views(sorted@).take(i + 1) =~= entry_views(sorted@).take(i as int).push(
            entry_views(sorted@)[i as int],
        ));
        assert(entry_views(out@) =~= head + entry_views(sorted@).take(i + 1));
        i = i + 1;
    }
    assert(entry_views(sorted@).take(n as int) =~= entry_views(sorted@));
    assert(entry_views(out@).take(head.len() as int) =~= head);
    assert(entry_views(out@).skip(head.len() as int) =~= entry_views(sorted@));
    out
}

/// The entries in order of their labels, equal labels keeping their order.
fn sort_by_label(entries: &Vec<BrowserEntry>) -> (r: Vec<BrowserEntry>)
    ensures
        entry_views(r@).to_multiset() == entry_views(entries@).to_multiset(),
        labels_sorted(entry_views(r@)),
{
    broadcast use vstd::seq_lib::group_to_multiset_ensures;

    let mut out: Vec<BrowserEntry> = Vec::new();
    let n = entries.len();
    let mut i: usize = 0;
    assert(entry_views(out@) =~= Seq::<(Seq<Seq<char>>, Seq<char>)>::empty());
    assert(entry_views(entries@).take(0) =~= Seq::<(Seq<Seq<char>>, Seq<char>)>::empty());
    while i < n
        invariant
            n == entries@.len(),
            i <= n,
            entry_views(out@).to_multiset() == entry_views(entries@).take(i as int).to_multiset(),
            labels_sorted(entry_views(out@)),
        decreases n - i,
    {
        let e = entries[i].duplicate();
        let m = out.len();
        let mut pos: usize = 0;
        while pos < m && !text_lt(e.label.as_str(), out[pos].label.as_str())
            invariant
                m == out@.len(),
                pos <= m,
                forall|k: int| 0 <= k < pos ==> !chars_lt(e.label@, #[trigger] out@[k].label@),
            decreases m - pos,
        {
            pos = pos + 1;
        }
        let ghost before = entry_views(out@);
        let ghost x = entry_view(e);
        assert(forall|k: int| 0 <= k < pos ==> !chars_lt(x.1, #[trigger] before[k].1));
        assert(pos < m ==> chars_lt(x.1, before[pos as int].1));
        assert(x == entry_views(entries@)[i as int]);
        out.insert(pos, e);
        proof {
            assert(entry_views(out@) =~= before.insert(pos as int, x));
            assert(entry_views(entries@).take(i + 1) =~= entry_views(entries@).take(i as int).push(x));
            vstd::seq_lib::to_multiset_insert(before, pos as int, x);
            vstd::seq_lib::to_multiset_build(entry_views(entries@).take(i as int), x);
            let after = entry_views(out@);
            assert forall|a: int, b: int| 0 <= a < b < after.len() implies !chars_lt(
                after[b].1,
                after[a].1,
            ) by {
                if b < pos {
                    assert(after[a] == before[a] && after[b] == before[b]);
                } else if b == pos {
                    assert(after[a] == before[a] && after[b] == x);
                } else if a < pos {
                    assert(after[a] == before[a] && after[b] == before[b - 1]);
                } else if a == pos {
                    assert(after[a] == x && after[b] == before[b - 1]);
                    assert(pos < m);
                    if chars_lt(before[b - 1].1, x.1) {
                        if b - 1 > pos {
                            lemma_chars_lt_transitive(before[b - 1].1, x.1, before[pos as int].1);
                            assert(!chars_lt(before[b - 1].1, before[pos as int].1));
                        } else {
                            lemma_chars_lt_transitive(x.1, before[pos as int].1, x.1);
                            lemma_chars_lt_irreflexive(x.1);
                        }
                    }
                } else {
                    assert(after[a] == before[a - 1] && after[b] == before[b - 1]);
                }
            }
        }
        i = i + 1;
    }
    assert(entry_views(entries@).take(n as int) =~= entry_views(entries@));
    out
}

} // verus!
