//! What a key press does in the terminal interface. The interface changes
//! its own state here; the work that needs the file system, a thread or
//! the scan's cancellation flag comes back as an action for the caller.
use vstd::prelude::*;

use crate::domain::{item_views, DeleteStrategy, ScanItem};
use crate::results::{indices_size, next_sort, picked, shifted, toggled_all, ResultsState};
use crate::state::{AppModel, BrowserPosition, HomeMode, HomeState, Screen};
use crate::text::{push_char, slice_chars};

verus! {

/// A key, as far as the interface tells keys apart.
#[derive(Clone, Copy, Debug, PartialEq, Eq, Structural)]
pub enum Key {
    Char(char),
    Enter,
    Esc,
    Tab,
    Backspace,
    Delete,
    Up,
    Down,
    Other,
}

/// The work a key press leaves to the caller.
pub enum KeyAction {
    /// Nothing.
    Nothing,
    /// Scan the typed path (`scan_target` says what it is).
    ScanInput,
    /// List the directory the browser moved to, for `refresh_browser`.
    ListBrowser,
    /// Ask the running scan to stop.
    CancelScan,
    /// Delete these items with this strategy.
    StartDelete(Vec<ScanItem>, DeleteStrategy),
}

/// Which part of the interface a key goes to: an open summary first, then a
/// running deletion, then a pending confirmation, then the screen.
#[derive(Clone, Copy, Debug, PartialEq, Eq, Structural)]
pub enum KeyRoute {
    Summary,
    DeleteProgress,
    Confirm,
    Home,
    Scanning,
    Results,
}

/// Whether the model asks to confirm a deletion.
pub open spec fn confirming(model: AppModel) -> bool {
    model.results matches Some(r) && r.pending_delete is Some
}

/// Where a key goes.
pub open spec fn route_spec(model: AppModel, deleting: bool) -> KeyRoute {
    if model.summary is Some {
        KeyRoute::Summary
    } else if deleting {
        KeyRoute::DeleteProgress
    } else if confirming(model) {
        KeyRoute::Confirm
    } else {
        match model.screen {
            Screen::Home | Screen::Error => KeyRoute::Home,
            Screen::Scanning => KeyRoute::Scanning,
            Screen::Results => KeyRoute::Results,
        }
    }
}

/// Where a key goes, given whether a deletion is running.
pub fn route(model: &AppModel, deleting: bool) -> (r: KeyRoute)
    ensures
        r == route_spec(*model, deleting),
{
    if model.summary.is_some() {
        return KeyRoute::Summary;
    }
    if deleting {
        return KeyRoute::DeleteProgress;
    }
    let pending = match &model.results {
        Some(r) => r.pending_delete.is_some(),
        None => false,
    };
    if pending {
        return KeyRoute::Confirm;
    }
    match model.screen {
        Screen::Home | Screen::Error => KeyRoute::Home,
        Screen::Scanning => KeyRoute::Scanning,
        Screen::Results => KeyRoute::Results,
    }
}

/// What a key does on the home screen.
#[derive(Clone, Copy, Debug, PartialEq, Eq, Structural)]
pub enum HomeCommand {
    ClearError,
    Quit,
    MoveUp,
    MoveDown,
    ToggleMode,
    ScanInput,
    EnterBrowser,
    ScanBrowserPath,
    Erase,
    Type(char),
    Nothing,
}

/// The home screen's keys: `Esc` dismisses an error or quits; the arrows
/// move in the browser; `Tab` switches between typing and browsing;
/// `Enter` scans the typed path or opens the selected directory; in the
/// browser `s` scans its directory and `q` quits; while typing, `Backspace`
/// erases, `Ctrl+c` quits, other control keys do nothing, and characters
/// are typed.
pub open spec fn home_command_spec(mode: HomeMode, has_error: bool, key: Key, control: bool) -> HomeCommand {
    match key {
        Key::Esc => if has_error {
            HomeCommand::ClearError
        } else {
            HomeCommand::Quit
        },
        Key::Up => HomeCommand::MoveUp,
        Key::Down => HomeCommand::MoveDown,
        Key::Tab => HomeCommand::ToggleMode,
        Key::Enter => if mode == HomeMode::PathEntry {
            HomeCommand::ScanInput
        } else {
            HomeCommand::EnterBrowser
        },
        Key::Char(c) => if mode == HomeMode::Browser {
            if c == 's' {
                HomeCommand::ScanBrowserPath
            } else if c == 'q' {
                HomeCommand::Quit
            } else {
                HomeCommand::Nothing
            }
        } else if control {
            if c == 'c' {
                HomeCommand::Quit
            } else {
                HomeCommand::Nothing
            }
        } else {
            HomeCommand::Type(c)
        },
        Key::Backspace => if mode == HomeMode::PathEntry {
            HomeCommand::Erase
        } else {
            HomeCommand::Nothing
        },
        _ => HomeCommand::Nothing,
    }
}

/// What a key does on the home screen.
pub fn home_command(mode: HomeMode, has_error: bool, key: Key, control: bool) -> (r: HomeCommand)
    ensures
        r == home_command_spec(mode, has_error, key, control),
{
    match key {
        Key::Esc => if has_error {
            HomeCommand::ClearError
        } else {
            HomeCommand::Quit
        },
        Key::Up => HomeCommand::MoveUp,
        Key::Down => HomeCommand::MoveDown,
        Key::Tab => HomeCommand::ToggleMode,
        Key::Enter => if mode == HomeMode::PathEntry {
            HomeCommand::ScanInput
        } else {
            HomeCommand::EnterBrowser
        },
        Key::Char(c) => if mode == HomeMode::Browser {
            if c == 's' {
                HomeCommand::ScanBrowserPath
            } else if c == 'q' {
                HomeCommand::Quit
            } else {
                HomeCommand::Nothing
            }
        } else if control {
            if c == 'c' {
                HomeCommand::Quit
            } else {
                HomeCommand::Nothing
            }
        } else {
            HomeCommand::Type(c)
        },
        Key::Backspace => if mode == HomeMode::PathEntry {
            HomeCommand::Erase
        } else {
            HomeCommand::Nothing
        },
        _ => HomeCommand::Nothing,
    }
}

/// What a key does on the results screen.
#[derive(Clone, Copy, Debug, PartialEq, Eq, Structural)]
pub enum ResultsCommand {
    Quit,
    Home,
    MoveUp,
    MoveDown,
    Toggle,
    ToggleAll,
    ClearMarks,
    CycleFilter,
    CycleSort,
    Delete(DeleteStrategy),
    Rescan,
    Nothing,
}

/// The results screen's keys: `q` quits; `Esc` or `h` go home; the arrows
/// move; space marks; `a` marks or unmarks all listed; `n` clears the
/// marks; `f` and `s` change the filter and the order; `Enter`, `Delete`,
/// `d` or `x` ask to move the targets to the trash, `D` to delete them for
/// good; `r` scans again.
pub open spec fn results_command_spec(key: Key) -> ResultsCommand {
    match key {
        Key::Char('q') => ResultsCommand::Quit,
        Key::Esc | Key::Char('h') => ResultsCommand::Home,
        Key::Up => ResultsCommand::MoveUp,
        Key::Down => ResultsCommand::MoveDown,
        Key::Char(' ') => ResultsCommand::Toggle,
        Key::Char('a') => ResultsCommand::ToggleAll,
        Key::Char('n') => ResultsCommand::ClearMarks,
        Key::Char('f') => ResultsCommand::CycleFilter,
        Key::Char('s') => ResultsCommand::CycleSort,
        Key::Enter | Key::Delete | Key::Char('d') | Key::Char('x') => ResultsCommand::Delete(
            DeleteStrategy::Trash,
        ),
        Key::Char('D') => ResultsCommand::Delete(DeleteStrategy::Permanent),
        Key::Char('r') => ResultsCommand::Rescan,
        _ => ResultsCommand::Nothing,
    }
}

/// What a key does on the results screen.
pub fn results_command(key: Key) -> (r: ResultsCommand)
    ensures
        r == results_command_spec(key),
{
    match key {
        Key::Char('q') => ResultsCommand::Quit,
        Key::Esc | Key::Char('h') => ResultsCommand::Home,
        Key::Up => ResultsCommand::MoveUp,
        Key::Down => ResultsCommand::MoveDown,
        Key::Char(' ') => ResultsCommand::Toggle,
        Key::Char('a') => ResultsCommand::ToggleAll,
        Key::Char('n') => ResultsCommand::ClearMarks,
        Key::Char('f') => ResultsCommand::CycleFilter,
        Key::Char('s') => ResultsCommand::CycleSort,
        Key::Enter | Key::Delete | Key::Char('d') | Key::Char('x') => ResultsCommand::Delete(
            DeleteStrategy::Trash,
        ),
        Key::Char('D') => ResultsCommand::Delete(DeleteStrategy::Permanent),
        Key::Char('r') => ResultsCommand::Rescan,
        _ => ResultsCommand::Nothing,
    }
}

/// What a key does while a deletion waits for confirmation.
#[derive(Clone, Copy, Debug, PartialEq, Eq, Structural)]
pub enum ConfirmCommand {
    Cancel,
    Quit,
    Confirm,
    Nothing,
}

/// The confirmation's keys: `Esc` or `n` cancel, `q` quits, `Enter`, `y`
/// or `Y` confirm.
pub open spec fn confirm_command_spec(key: Key) -> ConfirmCommand {
    match key {
        Key::Esc | Key::Char('n') => ConfirmCommand::Cancel,
        Key::Char('q') => ConfirmCommand::Quit,
        Key::Enter | Key::Char('y') | Key::Char('Y') => ConfirmCommand::Confirm,
        _ => ConfirmCommand::Nothing,
    }
}

/// What a key does on the cleanup summary.
#[derive(Clone, Copy, Debug, PartialEq, Eq, Structural)]
pub enum SummaryCommand {
    Quit,
    Close,
    Home,
    Rescan,
    Nothing,
}

/// The summary's keys: `q` quits, `Enter` or `Esc` close it, `h` closes it
/// and goes home, `r` closes it and scans again.
pub open spec fn summary_command_spec(key: Key) -> SummaryCommand {
    match key {
        Key::Char('q') => SummaryCommand::Quit,
        Key::Enter | Key::Esc => SummaryCommand::Close,
        Key::Char('h') => SummaryCommand::Home,
        Key::Char('r') => SummaryCommand::Rescan,
        _ => SummaryCommand::Nothing,
    }
}

/// What a key press does: the model `m` becomes `f` and the caller is
/// asked to do `r`, as the part of the interface that the key goes to says.
pub open spec fn key_effect(
    m: AppModel,
    f: AppModel,
    key: Key,
    control: bool,
    deleting: bool,
    r: KeyAction,
) -> bool {
    match route_spec(m, deleting) {
        KeyRoute::Summary => match summary_command_spec(key) {
            SummaryCommand::Quit => f.should_quit && r is Nothing,
            SummaryCommand::Close => f.summary is None && f.screen
                == m.screen && r is Nothing,
            SummaryCommand::Home => f.summary is None && f.screen
                == Screen::Home && r is Nothing,
            SummaryCommand::Rescan => f.summary is None && r is ScanInput,
            SummaryCommand::Nothing => f == m && r is Nothing,
        },
        KeyRoute::DeleteProgress => r is Nothing && f.should_quit == (
        m.should_quit || key == Key::Char('q')),
        KeyRoute::Confirm => match confirm_command_spec(key) {
            ConfirmCommand::Cancel => (f.results matches Some(res)
                && res.pending_delete is None) && r is Nothing,
            ConfirmCommand::Quit => f.should_quit && r is Nothing,
            ConfirmCommand::Confirm => (r matches KeyAction::StartDelete(items, strategy)
                && strategy == m.results.unwrap().pending_delete.unwrap().strategy
                && item_views(items@) == picked(
                m.results.unwrap().report.items@,
                m.results.unwrap().pending_delete.unwrap().item_indices@,
            )) && (f.results matches Some(res) && res.pending_delete is None),
            ConfirmCommand::Nothing => f == m && r is Nothing,
        },
        KeyRoute::Scanning => if key == Key::Char('c') || key == Key::Esc {
            r is CancelScan && f == m
        } else if key == Key::Char('q') {
            r is CancelScan && f.should_quit
        } else {
            r is Nothing && f == m
        },
        KeyRoute::Home => home_effect(
            m,
            f,
            home_command_spec(m.home.mode, m.last_error is Some, key, control),
            r,
        ),
        KeyRoute::Results => results_effect(m, f, results_command_spec(key), r),
    }
}

/// Handles a key press. `deleting` tells whether a deletion runs in the
/// background.
pub fn handle_key(model: &mut AppModel, key: Key, control: bool, deleting: bool) -> (r: KeyAction)
    ensures
        key_effect(*old(model), *final(model), key, control, deleting, r),
{
    match route(model, deleting) {
        KeyRoute::Summary => {
            match key {
                Key::Char('q') => {
                    model.should_quit = true;
                },
                Key::Enter | Key::Esc => {
                    model.summary = None;
                },
                Key::Char('h') => {
                    model.summary = None;
                    model.screen = Screen::Home;
                },
                Key::Char('r') => {
                    model.summary = None;
                    return KeyAction::ScanInput;
                },
                _ => {},
            }
            KeyAction::Nothing
        },
        KeyRoute::DeleteProgress => {
            if key == Key::Char('q') {
                model.should_quit = true;
            }
            KeyAction::Nothing
        },
        KeyRoute::Confirm => {
            match key {
                Key::Esc | Key::Char('n') => {
                    match &mut model.results {
                        Some(results) => {
                            results.pending_delete = None;
                        },
                        None => {},
                    }
                    KeyAction::Nothing
                },
                Key::Char('q') => {
                    model.should_quit = true;
                    KeyAction::Nothing
                },
                Key::Enter | Key::Char('y') | Key::Char('Y') => {
                    match &mut model.results {
                        Some(results) => {
                            let strategy = match &results.pending_delete {
                                Some(p) => p.strategy,
                                None => DeleteStrategy::Trash,
                            };
                            let items = results.delete_items();
                            results.pending_delete = None;
                            KeyAction::StartDelete(items, strategy)
                        },
                        None => KeyAction::Nothing,
                    }
                },
                _ => KeyAction::Nothing,
            }
        },
        KeyRoute::Scanning => {
            if key == Key::Char('c') || key == Key::Esc {
                KeyAction::CancelScan
            } else if key == Key::Char('q') {
                model.should_quit = true;
                KeyAction::CancelScan
            } else {
                KeyAction::Nothing
            }
        },
        KeyRoute::Home => handle_home_key(model, key, control),
        KeyRoute::Results => handle_results_key(model, key),
    }
}

/// What a home-screen command did to the model, and what it asks of the
/// caller.
pub open spec fn home_effect(m: AppModel, f: AppModel, cmd: HomeCommand, r: KeyAction) -> bool {
    match cmd {
        HomeCommand::ClearError => f == (AppModel { last_error: None, screen: Screen::Home, ..m })
            && r is Nothing,
        HomeCommand::Quit => f == (AppModel { should_quit: true, ..m }) && r is Nothing,
        HomeCommand::MoveUp | HomeCommand::MoveDown => {
            &&& f == (AppModel {
                home: HomeState { browser_selected: f.home.browser_selected, ..m.home },
                ..m
            })
            &&& r is Nothing
            &&& !(m.home.browser_selected < isize::MAX && m.home.browser_entries@.len() <= isize::MAX)
                ==> f == m
            &&& m.home.browser_selected < isize::MAX && m.home.browser_entries@.len() <= isize::MAX
                ==> f.home.browser_selected == if m.home.mode == HomeMode::Browser {
                shifted(
                    m.home.browser_selected as int,
                    m.home.browser_entries@.len() as int,
                    if cmd == HomeCommand::MoveUp {
                        -1
                    } else {
                        1
                    },
                )
            } else {
                m.home.browser_selected as int
            }
        },
        HomeCommand::ToggleMode => f == (AppModel {
            home: HomeState {
                mode: if m.home.mode == HomeMode::PathEntry {
                    HomeMode::Browser
                } else {
                    HomeMode::PathEntry
                },
                ..m.home
            },
            ..m
        }) && r is Nothing,
        HomeCommand::ScanInput => f == m && r is ScanInput,
        HomeCommand::EnterBrowser => {
            let moved = m.home.browser_selected < m.home.browser_entries@.len();
            &&& f == (AppModel {
                home: HomeState {
                    browser_history: f.home.browser_history,
                    browser_path: f.home.browser_path,
                    input: f.home.input,
                    ..m.home
                },
                ..m
            })
            &&& f.home.browser_history@ == m.home.browser_history@.insert(
                m.home.browser_path@,
                BrowserPosition {
                    selected: m.home.browser_selected,
                    offset: m.home.browser_offset,
                },
            )
            &&& moved ==> f.home.browser_path@ == m.home.browser_entries@[m.home.browser_selected as int].path@
                && f.home.input@ == f.home.browser_path.shown() && r is ListBrowser
            &&& !moved ==> f.home.browser_path == m.home.browser_path && f.home.input == m.home.input
                && r is Nothing
        },
        HomeCommand::ScanBrowserPath => f == (AppModel {
            home: HomeState { input: f.home.input, ..m.home },
            ..m
        }) && f.home.input@ == m.home.browser_path.shown() && r is ScanInput,
        HomeCommand::Erase => f == (AppModel { home: HomeState { input: f.home.input, ..m.home }, ..m })
            && f.home.input@ == (if m.home.input@.len() > 0 {
            m.home.input@.drop_last()
        } else {
            m.home.input@
        }) && r is Nothing,
        HomeCommand::Type(c) => f == (AppModel {
            home: HomeState { input: f.home.input, ..m.home },
            ..m
        }) && f.home.input@ == m.home.input@.push(c) && r is Nothing,
        HomeCommand::Nothing => f == m && r is Nothing,
    }
}

fn handle_home_key(model: &mut AppModel, key: Key, control: bool) -> (r: KeyAction)
    ensures
        home_effect(
            *old(model),
            *final(model),
            home_command_spec(old(model).home.mode, old(model).last_error is Some, key, control),
            r,
        ),
{
    let command = home_command(model.home.mode, model.last_error.is_some(), key, control);
    match command {
        HomeCommand::ClearError => {
            model.clear_error();
            KeyAction::Nothing
        },
        HomeCommand::Quit => {
            model.should_quit = true;
            KeyAction::Nothing
        },
        HomeCommand::MoveUp | HomeCommand::MoveDown => {
            let delta: isize = if command == HomeCommand::MoveUp {
                -1
            } else {
                1
            };
            if model.home.browser_selected < isize::MAX as usize
                && model.home.browser_entries.len() <= isize::MAX as usize {
                model.move_home_selection(delta);
            }
            KeyAction::Nothing
        },
        HomeCommand::ToggleMode => {
            if model.home.mode == HomeMode::PathEntry {
                model.switch_home_mode(HomeMode::Browser);
            } else {
                model.switch_home_mode(HomeMode::PathEntry);
            }
            KeyAction::Nothing
        },
        HomeCommand::ScanInput => KeyAction::ScanInput,
        HomeCommand::EnterBrowser => {
            if model.enter_browser() {
                KeyAction::ListBrowser
            } else {
                KeyAction::Nothing
            }
        },
        HomeCommand::ScanBrowserPath => {
            model.home.input = model.home.browser_path.display();
            KeyAction::ScanInput
        },
        HomeCommand::Erase => {
            let n = model.home.input.as_str().unicode_len();
            if n > 0 {
                let shorter = slice_chars(model.home.input.as_str(), 0, n - 1);
                assert(model.home.input@.subrange(0, n - 1) =~= model.home.input@.drop_last());
                model.home.input = shorter;
            }
            KeyAction::Nothing
        },
        HomeCommand::Type(c) => {
            push_char(&mut model.home.input, c);
            KeyAction::Nothing
        },
        HomeCommand::Nothing => KeyAction::Nothing,
    }
}

/// What a results-screen command did to the model, and what it asks of the
/// caller.
pub open spec fn results_effect(m: AppModel, f: AppModel, cmd: ResultsCommand, r: KeyAction) -> bool {
    if m.results is None {
        f == m && r is Nothing
    } else {
        let old_r = m.results.unwrap();
        match cmd {
            ResultsCommand::Quit => f.should_quit && r is Nothing,
            ResultsCommand::Home => f.summary is None && f.screen == Screen::Home && r is Nothing,
            ResultsCommand::Rescan => r is ScanInput,
            ResultsCommand::Nothing => f == m && r is Nothing,
            _ => f.results matches Some(res) && res.report == old_r.report && r is Nothing && (
            match cmd {
                ResultsCommand::Toggle => res.checked@ == match old_r.selected_index() {
                    Some(i) => if old_r.checked@.contains(i) {
                        old_r.checked@.remove(i)
                    } else {
                        old_r.checked@.insert(i)
                    },
                    None => old_r.checked@,
                },
                ResultsCommand::ToggleAll => res.checked@ == toggled_all(
                    old_r.checked@,
                    old_r.listed().to_set(),
                ),
                ResultsCommand::ClearMarks => res.checked@.is_empty(),
                ResultsCommand::CycleFilter => res.filter == crate::results::next_filter(old_r.filter)
                    && res.selected_visible == 0,
                ResultsCommand::CycleSort => res.sort == next_sort(old_r.sort)
                    && res.selected_visible == 0,
                ResultsCommand::MoveUp | ResultsCommand::MoveDown => res.checked@ == old_r.checked@
                    && (old_r.selected_visible < isize::MAX && old_r.listed().len() <= isize::MAX
                    ==> res.selected_visible == shifted(
                    old_r.selected_visible as int,
                    old_r.listed().len() as int,
                    if cmd == ResultsCommand::MoveUp {
                        -1
                    } else {
                        1
                    },
                )),
                ResultsCommand::Delete(strategy) => res.checked@ == old_r.checked@ && if indices_size(
                    old_r.report.items@,
                    old_r.targets(),
                ) <= u64::MAX && old_r.targets().len() > 0 {
                    res.pending_delete matches Some(p) && p.strategy == strategy
                        && p.item_indices@ == old_r.targets() && p.total_bytes == indices_size(
                        old_r.report.items@,
                        old_r.targets(),
                    )
                } else {
                    res.pending_delete == old_r.pending_delete
                },
                _ => true,
            }),
        }
    }
}

fn handle_results_key(model: &mut AppModel, key: Key) -> (r: KeyAction)
    ensures
        results_effect(*old(model), *final(model), results_command_spec(key), r),
{
    if model.results.is_none() {
        return KeyAction::Nothing;
    }
    let command = results_command(key);
    match command {
        ResultsCommand::Quit => {
            model.should_quit = true;
            KeyAction::Nothing
        },
        ResultsCommand::Home => {
            model.summary = None;
            model.screen = Screen::Home;
            KeyAction::Nothing
        },
        ResultsCommand::Rescan => KeyAction::ScanInput,
        ResultsCommand::Nothing => KeyAction::Nothing,
        _ => {
            let taken = model.results.take();
            match taken {
                Some(mut results) => {
                    apply_results_command(&mut results, command);
                    model.results = Some(results);
                },
                None => {},
            }
            KeyAction::Nothing
        },
    }
}

fn apply_results_command(results: &mut ResultsState, command: ResultsCommand)
    ensures
        final(results).report == old(results).report,
        match command {
            ResultsCommand::Toggle => final(results).checked@ == match old(results).selected_index() {
                Some(i) => if old(results).checked@.contains(i) {
                    old(results).checked@.remove(i)
                } else {
                    old(results).checked@.insert(i)
                },
                None => old(results).checked@,
            },
            ResultsCommand::ToggleAll => final(results).checked@ == toggled_all(
                old(results).checked@,
                old(results).listed().to_set(),
            ),
            ResultsCommand::ClearMarks => final(results).checked@.is_empty(),
            ResultsCommand::CycleFilter => final(results).filter == crate::results::next_filter(
                old(results).filter,
            ) && final(results).selected_visible == 0,
            ResultsCommand::CycleSort => final(results).sort == next_sort(old(results).sort)
                && final(results).selected_visible == 0,
            ResultsCommand::MoveUp | ResultsCommand::MoveDown => final(results).checked@ == old(
                results,
            ).checked@ && (old(results).selected_visible < isize::MAX && old(results).listed().len()
                <= isize::MAX ==> final(results).selected_visible == shifted(
                old(results).selected_visible as int,
                old(results).listed().len() as int,
                if command == ResultsCommand::MoveUp {
                    -1
                } else {
                    1
                },
            )),
            ResultsCommand::Delete(strategy) => final(results).checked@ == old(results).checked@ && if
            indices_size(old(results).report.items@, old(results).targets()) <= u64::MAX && old(
                results,
            ).targets().len() > 0 {
                final(results).pending_delete matches Some(p) && p.strategy == strategy
                    && p.item_indices@ == old(results).targets() && p.total_bytes == indices_size(
                    old(results).report.items@,
                    old(results).targets(),
                )
            } else {
                final(results).pending_delete == old(results).pending_delete
            },
            _ => true,
        },
{
    match command {
        ResultsCommand::MoveUp | ResultsCommand::MoveDown => {
            let delta: isize = if command == ResultsCommand::MoveUp {
                -1
            } else {
                1
            };
            let listed = results.visible_indices();
            if results.selected_visible < isize::MAX as usize && listed.len() <= isize::MAX as usize {
                results.move_selection(delta);
            }
        },
        ResultsCommand::Toggle => results.toggle_selected(),
        ResultsCommand::ToggleAll => results.toggle_all_visible(),
        ResultsCommand::ClearMarks => results.clear_selection(),
        ResultsCommand::CycleFilter => results.cycle_filter(),
        ResultsCommand::CycleSort => results.cycle_sort(),
        ResultsCommand::Delete(strategy) => {
            if results.targets_size_fits() {
                results.begin_delete(strategy);
            }
        },
        _ => {},
    }
}

} // verus!
