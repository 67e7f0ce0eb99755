//! Properties that hold across calls, and what the fixed tables and key maps
//! say, stated over the same spec functions
//! as the contracts of the functions they are about.
use vstd::prelude::*;

use crate::delete::{reclaimed, refused, removed_paths};
use crate::discovery::{follows_entry_spec, passes_age, Age};
use crate::domain::{
    format_bytes_spec, item_views, kind_label, scope_includes, size_of, strategy_label, unit_name,
    unit_of, unit_scale, ArtifactKind, DeleteStrategy, ScanItem, ScanScope,
};
use crate::fspath::{
    display_spec, file_name_spec, lemma_display_parse, lemma_parse_wf, parent_spec, parse_spec,
    path_lt, starts_with_spec,
};
use crate::keys::{
    confirm_command_spec, home_command_spec, key_effect, results_command_spec, route_spec,
    summary_command_spec, ConfirmCommand, HomeCommand, Key, KeyAction, KeyRoute, ResultsCommand,
    SummaryCommand,
};
use crate::results::{
    next_filter, next_sort, passes_filter, picked, shifted, shown_before, surviving, toggled_all,
    FilterMode, SortMode,
};
use crate::cli::{is_yes_answer, unit_seconds};
use crate::config::{default_protected_paths, is_default_config, paths_view, Config};
use crate::text::{decimal, eq_ignore_ascii_case_spec, trimmed};
use crate::view::{filter_label_spec, sort_label_spec};
use crate::rules::{
    any_marker_present, first_match_from, is_protected_spec, marker_present, marker_search,
    rule_outcome, searched, built_in_rule_views, RuleMatchKind, RuleView,
};
use crate::config::resolve_protected_spec;
use crate::state::{remembered, restored, without, AppModel, BrowserPosition, HomeMode, Screen};
use crate::version::{decide, UpgradeDecision, VersionOrder};
use crate::upgrade::{asset_name_spec, extension_spec, requested_tag_spec, target_for, ArchiveKind};
use crate::view::synced_offset;
use crate::error::RepoSweepError;

verus! {

/// Cycling the filter three times comes back to the filter it started from.
pub proof fn law_filter_cycle(f: FilterMode)
    ensures
        next_filter(next_filter(next_filter(f))) == f,
{
}

/// Cycling the sort order twice comes back to the order it started from.
pub proof fn law_sort_cycle(s: SortMode)
    ensures
        next_sort(next_sort(s)) == s,
{
}

/// Marking or unmarking all listed items leaves the marks of the items that
/// are not listed as they were.
pub proof fn law_toggle_all_keeps_unlisted(checked: Set<usize>, listed: Set<usize>, i: usize)
    requires
        !listed.contains(i),
    ensures
        toggled_all(checked, listed).contains(i) == checked.contains(i),
{
}

/// After marking or unmarking all listed items, either every listed item
/// is marked (when some were not) or none is (when all were).
pub proof fn law_toggle_all_listed(checked: Set<usize>, listed: Set<usize>)
    ensures
        !listed.subset_of(checked) ==> listed.subset_of(toggled_all(checked, listed)),
        listed.subset_of(checked) ==> forall|i: usize|
            listed.contains(i) ==> !#[trigger] toggled_all(checked, listed).contains(i),
{
}

/// Toggling all listed items twice gives back the marks when all listed
/// items were marked, and otherwise the marks without the listed items.
pub proof fn law_toggle_all_twice(checked: Set<usize>, listed: Set<usize>)
    ensures
        toggled_all(toggled_all(checked, listed), listed) == if listed.subset_of(checked) {
            checked
        } else {
            checked.difference(listed)
        },
{
    let once = toggled_all(checked, listed);
    if listed.subset_of(checked) {
        if listed.subset_of(once) {
            assert(listed =~= Set::<usize>::empty()) by {
                assert forall|i: usize| !listed.contains(i) by {
                    if listed.contains(i) {
                        assert(once.contains(i));
                    }
                }
            }
            assert(toggled_all(once, listed) =~= checked);
        } else {
            assert(toggled_all(once, listed) =~= checked);
        }
    } else {
        assert(listed.subset_of(once));
        assert(toggled_all(once, listed) =~= checked.difference(listed));
    }
}

proof fn lemma_without(s: Seq<Seq<Seq<char>>>, x: Seq<Seq<char>>)
    ensures
        forall|i: int| 0 <= i < without(s, x).len() ==> #[trigger] without(s, x)[i] != x,
        forall|i: int| 0 <= i < without(s, x).len() ==> s.contains(#[trigger] without(s, x)[i]),
        without(s, x).len() <= s.len(),
        s.no_duplicates() ==> without(s, x).no_duplicates(),
    decreases s.len(),
{
    if s.len() > 0 {
        let rest = s.drop_last();
        lemma_without(rest, x);
        let w = without(s, x);
        let wr = without(rest, x);
        assert forall|i: int| 0 <= i < w.len() implies s.contains(#[trigger] w[i]) by {
            if i < wr.len() {
                assert(w[i] == wr[i]);
                let k = choose|k: int| 0 <= k < rest.len() && rest[k] == wr[i];
                assert(s[k] == w[i]);
            } else {
                assert(w[i] == s.last());
                assert(s[s.len() - 1] == w[i]);
            }
        }
        if s.no_duplicates() && s.last() != x {
            assert(rest.no_duplicates()) by {
                assert forall|a: int, b: int| 0 <= a < rest.len() && 0 <= b < rest.len() && a != b implies rest[a] != rest[b] by {
                    assert(s[a] == rest[a] && s[b] == rest[b]);
                }
            }
            assert forall|a: int, b: int| 0 <= a < w.len() && 0 <= b < w.len() && a != b implies w[a] != w[b] by {
                if a < wr.len() && b < wr.len() {
                    assert(w[a] == wr[a] && w[b] == wr[b]);
                } else if a < wr.len() {
                    assert(w[a] == wr[a]);
                    let k = choose|k: int| 0 <= k < rest.len() && rest[k] == wr[a];
                    assert(s[k] == wr[a]);
                    assert(w[b] == s[s.len() - 1]);
                } else if b < wr.len() {
                    assert(w[b] == wr[b]);
                    let k = choose|k: int| 0 <= k < rest.len() && rest[k] == wr[b];
                    assert(s[k] == wr[b]);
                    assert(w[a] == s[s.len() - 1]);
                }
            }
        }
        if s.no_duplicates() && s.last() == x {
            assert(rest.no_duplicates()) by {
                assert forall|a: int, b: int| 0 <= a < rest.len() && 0 <= b < rest.len() && a != b implies rest[a] != rest[b] by {
                    assert(s[a] == rest[a] && s[b] == rest[b]);
                }
            }
        }
    }
}

/// After a scan of `path`, it is the most recent path, it occurs once, at
/// most ten paths are kept, and paths that occurred once still occur once.
pub proof fn law_recent_paths(recent: Seq<Seq<Seq<char>>>, path: Seq<Seq<char>>)
    ensures
        remembered(recent, path).len() >= 1,
        remembered(recent, path)[0] == path,
        remembered(recent, path).len() <= 10,
        without(recent, path).len() >= 9 ==> remembered(recent, path).len() == 10,
        without(recent, path).len() < 9 ==> remembered(recent, path).len() == without(
            recent,
            path,
        ).len() + 1,
        forall|i: int| 0 < i < remembered(recent, path).len() ==> #[trigger] remembered(recent, path)[i] != path,
        recent.no_duplicates() ==> remembered(recent, path).no_duplicates(),
        forall|i: int|
            0 < i < remembered(recent, path).len() ==> recent.contains(#[trigger] remembered(recent, path)[i]),
{
    lemma_without(recent, path);
    let w = without(recent, path);
    let all = seq![path] + w;
    let r = remembered(recent, path);
    assert forall|i: int| 0 < i < r.len() implies #[trigger] r[i] != path && recent.contains(r[i]) by {
        assert(r[i] == all[i]);
        assert(all[i] == w[i - 1]);
    }
    if recent.no_duplicates() {
        assert forall|a: int, b: int| 0 <= a < r.len() && 0 <= b < r.len() && a != b implies r[a] != r[b] by {
            assert(r[a] == all[a] && r[b] == all[b]);
            if a > 0 && b > 0 {
                assert(all[a] == w[a - 1] && all[b] == w[b - 1]);
            } else if a == 0 {
                assert(all[b] == w[b - 1]);
            } else {
                assert(all[a] == w[a - 1]);
            }
        }
    }
}

/// Coming back to a directory restores the position the browser had there,
/// when its listing is still long enough to hold it.
pub proof fn law_browser_position_restored(
    history: Map<Seq<Seq<char>>, BrowserPosition>,
    dir: Seq<Seq<char>>,
    position: BrowserPosition,
    len: int,
)
    requires
        position.selected < len,
        position.offset < len,
    ensures
        history.insert(dir, position)[dir] == position,
        restored(Some(history.insert(dir, position)[dir]), len) == position,
{
}

/// After the list offset is synced, the selected row is in view, and the
/// window does not run past the end of the list.
pub proof fn law_selection_in_view(offset: nat, selected: nat, len: nat, viewport: nat)
    requires
        selected < len,
        viewport > 0,
    ensures
        synced_offset(offset, selected, len, viewport) <= selected,
        selected < synced_offset(offset, selected, len, viewport) + viewport,
        synced_offset(offset, selected, len, viewport) + viewport <= len || synced_offset(
            offset,
            selected,
            len,
            viewport,
        ) == 0,
{
}

/// Every item given to a deletion is accounted for once: as deleted or as
/// failed.
pub proof fn law_every_item_accounted(items: Seq<ScanItem>, outcomes: Seq<Option<RepoSweepError>>)
    requires
        outcomes.len() == items.len(),
    ensures
        removed_paths(items, outcomes).len() + refused(items, outcomes).len() == items.len(),
        reclaimed(items, outcomes) <= u64::MAX,
    decreases items.len(),
{
    if items.len() > 0 {
        law_every_item_accounted(items.drop_last(), outcomes.drop_last());
    }
}

/// When every removal succeeds, nothing fails and every item's path is
/// deleted, in the order of the items.
pub proof fn law_all_removed(items: Seq<ScanItem>, outcomes: Seq<Option<RepoSweepError>>)
    requires
        outcomes.len() == items.len(),
        forall|i: int| 0 <= i < outcomes.len() ==> #[trigger] outcomes[i] is None,
    ensures
        refused(items, outcomes).len() == 0,
        removed_paths(items, outcomes) == items.map_values(|it: ScanItem| it.path@),
    decreases items.len(),
{
    if items.len() > 0 {
        assert forall|i: int| 0 <= i < outcomes.drop_last().len() implies #[trigger] outcomes.drop_last()[i] is None by {
            assert(outcomes.drop_last()[i] == outcomes[i]);
        }
        law_all_removed(items.drop_last(), outcomes.drop_last());
        assert(outcomes.last() is None);
        assert(items.map_values(|it: ScanItem| it.path@) =~= items.drop_last().map_values(
            |it: ScanItem| it.path@,
        ).push(items.last().path@));
    } else {
        assert(items.map_values(|it: ScanItem| it.path@) =~= Seq::<Seq<Seq<char>>>::empty());
    }
}

/// A directory that a rule matches carries the rule's directory name as its
/// last component.
pub proof fn law_match_by_name(
    rules: Seq<RuleView>,
    k: int,
    path: Seq<Seq<char>>,
    root: Seq<Seq<char>>,
    facts: Seq<(Seq<Seq<char>>, Seq<char>)>,
)
    requires
        first_match_from(rules, k, path, root, facts) is Some,
    ensures
        ({
            let i = first_match_from(rules, k, path, root, facts).unwrap();
            &&& k <= i < rules.len()
            &&& file_name_spec(path) == Some(rules[i].directory_name)
            &&& rule_outcome(rules[i], path, root, facts) is Some
        }),
    decreases rules.len() - k,
{
    if k >= 0 && k < rules.len() && rule_outcome(rules[k], path, root, facts) is None {
        law_match_by_name(rules, k + 1, path, root, facts);
    }
}

/// Whatever lies below a protected path is protected too.
pub proof fn law_protected_below(
    protected: Seq<Seq<Seq<char>>>,
    root: Seq<Seq<char>>,
    path: Seq<Seq<char>>,
    below: Seq<Seq<char>>,
)
    requires
        is_protected_spec(protected, root, path),
        starts_with_spec(below, path),
    ensures
        is_protected_spec(protected, root, below),
{
    let i = choose|i: int|
        0 <= i < protected.len() && starts_with_spec(
            path,
            #[trigger] resolve_protected_spec(root, protected[i]),
        );
    let base = resolve_protected_spec(root, protected[i]);
    assert(base.is_prefix_of(below)) by {
        assert forall|j: int| 0 <= j < base.len() implies base[j] == below[j] by {
            assert(base[j] == path[j]);
        }
    }
}

/// A directory that passes a minimum age passes any smaller one, and with
/// no minimum every directory passes.
pub proof fn law_age_filter_monotone(min: u64, smaller: u64, age: Age)
    requires
        smaller <= min,
        passes_age(Some(min), age),
    ensures
        passes_age(Some(smaller), age),
        passes_age(None, age),
{
}


/// Whether two sets of marker facts agree on every marker of `markers` in
/// every directory that the search for a project root of `path` visits.
pub open spec fn agree_on_search(
    f1: Seq<(Seq<Seq<char>>, Seq<char>)>,
    f2: Seq<(Seq<Seq<char>>, Seq<char>)>,
    path: Seq<Seq<char>>,
    root: Seq<Seq<char>>,
    markers: Seq<Seq<char>>,
) -> bool {
    forall|k: int, j: int|
        searched(path, root, k) && 0 <= j < markers.len() ==> (marker_present(
            f1,
            #[trigger] path.take(k),
            #[trigger] markers[j],
        ) == marker_present(f2, path.take(k), markers[j]))
}

proof fn lemma_search_agrees(
    path: Seq<Seq<char>>,
    k: int,
    root: Seq<Seq<char>>,
    markers: Seq<Seq<char>>,
    f1: Seq<(Seq<Seq<char>>, Seq<char>)>,
    f2: Seq<(Seq<Seq<char>>, Seq<char>)>,
)
    requires
        searched(path, root, k),
        agree_on_search(f1, f2, path, root, markers),
    ensures
        marker_search(path, k, root, markers, f1) == marker_search(path, k, root, markers, f2),
    decreases k,
{
    let dir = path.take(k);
    assert(any_marker_present(f1, dir, markers) == any_marker_present(f2, dir, markers)) by {
        if any_marker_present(f1, dir, markers) {
            let j = choose|j: int| 0 <= j < markers.len() && marker_present(f1, dir, #[trigger] markers[j]);
            assert(marker_present(f2, dir, markers[j]));
        }
        if any_marker_present(f2, dir, markers) {
            let j = choose|j: int| 0 <= j < markers.len() && marker_present(f2, dir, #[trigger] markers[j]);
            assert(marker_present(f1, dir, markers[j]));
        }
    }
    if !(starts_with_spec(dir, root) && any_marker_present(f1, dir, markers)) && dir != root
        && parent_spec(dir) is Some {
        assert(searched(path, root, k - 1)) by {
            assert forall|k2: int| k - 1 < k2 < path.len() implies path.take(k2) != root
                && #[trigger] parent_spec(path.take(k2)) is Some by {
                if k2 > k {
                    assert(searched(path, root, k));
                }
            }
        }
        lemma_search_agrees(path, k - 1, root, markers, f1, f2);
    }
}

/// Marker facts need only be right where the search for a project root
/// looks: two sets of facts that agree on the markers of the rules named
/// like `path`, in the directories that `searched` names (the ones
/// `marker_probes` lists), give the same match.
pub proof fn law_probes_suffice(
    rules: Seq<RuleView>,
    k: int,
    path: Seq<Seq<char>>,
    root: Seq<Seq<char>>,
    f1: Seq<(Seq<Seq<char>>, Seq<char>)>,
    f2: Seq<(Seq<Seq<char>>, Seq<char>)>,
)
    requires
        forall|i: int|
            0 <= i < rules.len() && file_name_spec(path) == Some(#[trigger] rules[i].directory_name)
                ==> agree_on_search(f1, f2, path, root, rules[i].required_markers),
    ensures
        first_match_from(rules, k, path, root, f1) == first_match_from(rules, k, path, root, f2),
        forall|i: int|
            0 <= i < rules.len() ==> rule_outcome(#[trigger] rules[i], path, root, f1) == rule_outcome(
                rules[i],
                path,
                root,
                f2,
            ),
    decreases rules.len() - k,
{
    assert forall|i: int| 0 <= i < rules.len() implies rule_outcome(
        #[trigger] rules[i],
        path,
        root,
        f1,
    ) == rule_outcome(rules[i], path, root, f2) by {
        if file_name_spec(path) == Some(rules[i].directory_name) && rules[i].required_markers.len()
            > 0 && parent_spec(path) is Some {
            assert(searched(path, root, path.len() - 1));
            lemma_search_agrees(path, path.len() - 1, root, rules[i].required_markers, f1, f2);
        }
    }
    if 0 <= k < rules.len() {
        law_probes_suffice(rules, k + 1, path, root, f1, f2);
    }
}


/// After a deletion is taken in, no remaining item has a deleted path, and
/// every item whose path was not deleted remains.
pub proof fn law_deleted_items_leave(items: Seq<ScanItem>, deleted: Seq<Seq<Seq<char>>>)
    ensures
        forall|i: int|
            0 <= i < surviving(items, deleted).len() ==> !deleted.contains(
                (#[trigger] surviving(items, deleted)[i]).path@,
            ) && items.contains(surviving(items, deleted)[i]),
        forall|j: int|
            0 <= j < items.len() && !deleted.contains((#[trigger] items[j]).path@) ==> surviving(
                items,
                deleted,
            ).contains(items[j]),
    decreases items.len(),
{
    if items.len() > 0 {
        let rest = items.drop_last();
        law_deleted_items_leave(rest, deleted);
        let sv = surviving(items, deleted);
        let sr = surviving(rest, deleted);
        assert forall|i: int| 0 <= i < sv.len() implies !deleted.contains((#[trigger] sv[i]).path@)
            && items.contains(sv[i]) by {
            if i < sr.len() {
                assert(sv[i] == sr[i]);
                let k = choose|k: int| 0 <= k < rest.len() && rest[k] == sr[i];
                assert(items[k] == sv[i]);
            } else {
                assert(sv[i] == items.last());
                assert(items[items.len() - 1] == sv[i]);
            }
        }
        assert forall|j: int|
            0 <= j < items.len() && !deleted.contains((#[trigger] items[j]).path@) implies sv.contains(
                items[j],
            ) by {
            if j < items.len() - 1 {
                assert(rest[j] == items[j]);
                let k = choose|k: int| 0 <= k < sr.len() && sr[k] == rest[j];
                assert(sv[k] == sr[k]);
            } else {
                assert(sv[sv.len() - 1] == items[j]);
            }
        }
    }
}


/// Writing out a parsed path and parsing the text again gives the same
/// path, so a path survives being passed around as text.
pub proof fn law_path_round_trip(s: Seq<char>)
    ensures
        parse_spec(display_spec(parse_spec(s))) == parse_spec(s),
{
    lemma_parse_wf(s);
    lemma_display_parse(parse_spec(s));
}


/// Nothing is deleted without confirmation: the only key press that starts
/// a deletion is one that confirms a pending deletion, and it deletes
/// exactly the items that the confirmation named, with its strategy.
pub proof fn law_delete_needs_confirmation(
    m: AppModel,
    f: AppModel,
    key: Key,
    control: bool,
    deleting: bool,
    r: KeyAction,
)
    requires
        key_effect(m, f, key, control, deleting, r),
        r is StartDelete,
    ensures
        route_spec(m, deleting) == KeyRoute::Confirm,
        confirm_command_spec(key) == ConfirmCommand::Confirm,
        m.results matches Some(res) && res.pending_delete is Some,
        r matches KeyAction::StartDelete(items, strategy) && strategy
            == m.results.unwrap().pending_delete.unwrap().strategy && item_views(items@) == picked(
            m.results.unwrap().report.items@,
            m.results.unwrap().pending_delete.unwrap().item_indices@,
        ),
{
}

/// What each scan scope reports, by kind: everything for `all`; caches
/// and build outputs, never dependencies, for `cache`; dependencies alone
/// for `dependencies`.
pub proof fn law_scope_kinds(kind: ArtifactKind)
    ensures
        scope_includes(ScanScope::All, kind),
        scope_includes(ScanScope::Cache, kind) <==> (kind == ArtifactKind::Cache || kind
            == ArtifactKind::Build),
        !scope_includes(ScanScope::Cache, ArtifactKind::Dependency),
        scope_includes(ScanScope::Dependencies, kind) <==> kind == ArtifactKind::Dependency,
{
}

/// What each results filter lists, by kind: everything; caches and build
/// outputs, never dependencies; dependencies alone. A filter lists exactly
/// what the scan scope of the same name reports.
pub proof fn law_filter_kinds(kind: ArtifactKind)
    ensures
        passes_filter(FilterMode::All, kind),
        passes_filter(FilterMode::CacheAndBuild, kind) <==> (kind == ArtifactKind::Cache || kind
            == ArtifactKind::Build),
        passes_filter(FilterMode::Dependencies, kind) <==> kind == ArtifactKind::Dependency,
        passes_filter(FilterMode::CacheAndBuild, kind) == scope_includes(ScanScope::Cache, kind),
        passes_filter(FilterMode::Dependencies, kind) == scope_includes(
            ScanScope::Dependencies,
            kind,
        ),
        passes_filter(FilterMode::All, kind) == scope_includes(ScanScope::All, kind),
{
}

/// The keys of the results screen. Only `D` deletes for good; Enter,
/// Delete, `d` and `x` move the targets to the trash; every other command
/// has its one key (Esc and `h` both go home); all else does nothing.
pub proof fn law_results_keys(key: Key)
    ensures
        results_command_spec(key) == ResultsCommand::Delete(DeleteStrategy::Permanent) <==> key
            == Key::Char('D'),
        results_command_spec(key) == ResultsCommand::Delete(DeleteStrategy::Trash) <==> (key
            == Key::Enter || key == Key::Delete || key == Key::Char('d') || key == Key::Char('x')),
        results_command_spec(key) == ResultsCommand::Quit <==> key == Key::Char('q'),
        results_command_spec(key) == ResultsCommand::Home <==> (key == Key::Esc || key == Key::Char(
            'h',
        )),
        results_command_spec(key) == ResultsCommand::MoveUp <==> key == Key::Up,
        results_command_spec(key) == ResultsCommand::MoveDown <==> key == Key::Down,
        results_command_spec(key) == ResultsCommand::Toggle <==> key == Key::Char(' '),
        results_command_spec(key) == ResultsCommand::ToggleAll <==> key == Key::Char('a'),
        results_command_spec(key) == ResultsCommand::ClearMarks <==> key == Key::Char('n'),
        results_command_spec(key) == ResultsCommand::CycleFilter <==> key == Key::Char('f'),
        results_command_spec(key) == ResultsCommand::CycleSort <==> key == Key::Char('s'),
        results_command_spec(key) == ResultsCommand::Rescan <==> key == Key::Char('r'),
{
}

/// The keys of the confirmation: Esc and `n` cancel, `q` quits, Enter, `y`
/// and `Y` confirm; no other key does anything.
pub proof fn law_confirm_keys(key: Key)
    ensures
        confirm_command_spec(key) == ConfirmCommand::Cancel <==> (key == Key::Esc || key
            == Key::Char('n')),
        confirm_command_spec(key) == ConfirmCommand::Quit <==> key == Key::Char('q'),
        confirm_command_spec(key) == ConfirmCommand::Confirm <==> (key == Key::Enter || key
            == Key::Char('y') || key == Key::Char('Y')),
{
}

/// The keys of the cleanup summary: `q` quits, Enter and Esc close it, `h`
/// goes home, `r` scans again; no other key does anything.
pub proof fn law_summary_keys(key: Key)
    ensures
        summary_command_spec(key) == SummaryCommand::Quit <==> key == Key::Char('q'),
        summary_command_spec(key) == SummaryCommand::Close <==> (key == Key::Enter || key
            == Key::Esc),
        summary_command_spec(key) == SummaryCommand::Home <==> key == Key::Char('h'),
        summary_command_spec(key) == SummaryCommand::Rescan <==> key == Key::Char('r'),
{
}

/// The keys of the home screen. Esc dismisses a shown error, else quits;
/// the arrows move the browser's selection and Tab switches the mode. In
/// the path entry, Enter scans the typed path, Backspace erases, a
/// character is typed unless Control is held, and Control-C quits. In the
/// browser, Enter opens the selected entry, `s` scans the browsed
/// directory, `q` quits, and other characters do nothing.
pub proof fn law_home_keys(mode: HomeMode, has_error: bool, key: Key, control: bool, c: char)
    ensures
        home_command_spec(mode, has_error, Key::Esc, control) == (if has_error {
            HomeCommand::ClearError
        } else {
            HomeCommand::Quit
        }),
        home_command_spec(mode, has_error, Key::Up, control) == HomeCommand::MoveUp,
        home_command_spec(mode, has_error, Key::Down, control) == HomeCommand::MoveDown,
        home_command_spec(mode, has_error, Key::Tab, control) == HomeCommand::ToggleMode,
        home_command_spec(HomeMode::PathEntry, has_error, Key::Enter, control)
            == HomeCommand::ScanInput,
        home_command_spec(HomeMode::Browser, has_error, Key::Enter, control)
            == HomeCommand::EnterBrowser,
        home_command_spec(HomeMode::PathEntry, has_error, Key::Backspace, control)
            == HomeCommand::Erase,
        home_command_spec(HomeMode::Browser, has_error, Key::Backspace, control)
            == HomeCommand::Nothing,
        home_command_spec(HomeMode::PathEntry, has_error, Key::Char(c), false) == HomeCommand::Type(
            c,
        ),
        home_command_spec(HomeMode::PathEntry, has_error, Key::Char(c), true) == (if c == 'c' {
            HomeCommand::Quit
        } else {
            HomeCommand::Nothing
        }),
        home_command_spec(HomeMode::Browser, has_error, Key::Char(c), control) == (if c == 's' {
            HomeCommand::ScanBrowserPath
        } else if c == 'q' {
            HomeCommand::Quit
        } else {
            HomeCommand::Nothing
        }),
        (key == Key::Delete || key == Key::Other) ==> home_command_spec(
            mode,
            has_error,
            key,
            control,
        ) == HomeCommand::Nothing,
{
}

/// The release build chosen for a platform is the one for the asked
/// architecture and system: its target triple starts with the architecture
/// and ends with the system's part (`-unknown-linux-gnu`, `-apple-darwin`,
/// `-pc-windows-msvc`); Windows builds come as zip archives, the others as
/// tar.gz. Builds exist for Linux and macOS on x86_64 and aarch64, and for
/// Windows on x86_64, and for nothing else.
pub proof fn law_platform_targets(os: Seq<char>, arch: Seq<char>)
    ensures
        target_for(os, arch) is Some <==> ((os == "linux"@ || os == "macos"@) && (arch
            == "x86_64"@ || arch == "aarch64"@)) || (os == "windows"@ && arch == "x86_64"@),
        target_for(os, arch) matches Some((t, k)) ==> {
            &&& os == "linux"@ ==> t == arch + "-unknown-linux-gnu"@ && k == ArchiveKind::TarGz
            &&& os == "macos"@ ==> t == arch + "-apple-darwin"@ && k == ArchiveKind::TarGz
            &&& os == "windows"@ ==> t == arch + "-pc-windows-msvc"@ && k == ArchiveKind::Zip
        },
{
    reveal_strlit("linux");
    reveal_strlit("macos");
    reveal_strlit("windows");
    reveal_strlit("x86_64");
    reveal_strlit("aarch64");
    reveal_strlit("-unknown-linux-gnu");
    reveal_strlit("-apple-darwin");
    reveal_strlit("-pc-windows-msvc");
    reveal_strlit("x86_64-unknown-linux-gnu");
    reveal_strlit("aarch64-unknown-linux-gnu");
    reveal_strlit("x86_64-apple-darwin");
    reveal_strlit("aarch64-apple-darwin");
    reveal_strlit("x86_64-pc-windows-msvc");
    assert("x86_64-unknown-linux-gnu"@ =~= "x86_64"@ + "-unknown-linux-gnu"@);
    assert("aarch64-unknown-linux-gnu"@ =~= "aarch64"@ + "-unknown-linux-gnu"@);
    assert("x86_64-apple-darwin"@ =~= "x86_64"@ + "-apple-darwin"@);
    assert("aarch64-apple-darwin"@ =~= "aarch64"@ + "-apple-darwin"@);
    assert("x86_64-pc-windows-msvc"@ =~= "x86_64"@ + "-pc-windows-msvc"@);
    assert("linux"@ != "macos"@ && "linux"@ != "windows"@ && "macos"@ != "windows"@) by {
        assert("linux"@[0] != "macos"@[0]);
        assert("linux"@[0] != "windows"@[0]);
        assert("macos"@[0] != "windows"@[0]);
    }
    assert("x86_64"@ != "aarch64"@) by {
        assert("x86_64"@[0] != "aarch64"@[0]);
    }
}

/// The built-in rules, in the order they are tried: each one's name, the
/// directory name it recognises, the kind and ecosystem it reports, and the
/// marker files it needs in an ancestor (none for a rule that goes by the
/// name alone). Every built-in rule is enabled and goes by the name alone
/// exactly when it needs no marker.
pub proof fn law_built_in_rules()
    ensures
        built_in_rule_views().map_values(
            |r: RuleView| (r.name, r.directory_name, r.kind, r.ecosystem, r.required_markers),
        ) == seq![
            ("Node Modules"@, "node_modules"@, ArtifactKind::Dependency, "javascript"@, Seq::<Seq<char>>::empty()),
            (".pnpm-store"@, ".pnpm-store"@, ArtifactKind::Cache, "javascript"@, Seq::<Seq<char>>::empty()),
            (".yarn"@, ".yarn"@, ArtifactKind::Cache, "javascript"@, Seq::<Seq<char>>::empty()),
            (".next"@, ".next"@, ArtifactKind::Build, "javascript"@, Seq::<Seq<char>>::empty()),
            (".turbo"@, ".turbo"@, ArtifactKind::Cache, "javascript"@, Seq::<Seq<char>>::empty()),
            (".cache"@, ".cache"@, ArtifactKind::Cache, "generic"@, Seq::<Seq<char>>::empty()),
            (".parcel-cache"@, ".parcel-cache"@, ArtifactKind::Cache, "javascript"@, Seq::<Seq<char>>::empty()),
            ("__pycache__"@, "__pycache__"@, ArtifactKind::Cache, "python"@, Seq::<Seq<char>>::empty()),
            (".pytest_cache"@, ".pytest_cache"@, ArtifactKind::Cache, "python"@, Seq::<Seq<char>>::empty()),
            (".mypy_cache"@, ".mypy_cache"@, ArtifactKind::Cache, "python"@, Seq::<Seq<char>>::empty()),
            (".ruff_cache"@, ".ruff_cache"@, ArtifactKind::Cache, "python"@, Seq::<Seq<char>>::empty()),
            (".venv"@, ".venv"@, ArtifactKind::Dependency, "python"@, Seq::<Seq<char>>::empty()),
            ("venv"@, "venv"@, ArtifactKind::Dependency, "python"@, Seq::<Seq<char>>::empty()),
            (".tox"@, ".tox"@, ArtifactKind::Build, "python"@, Seq::<Seq<char>>::empty()),
            ("target"@, "target"@, ArtifactKind::Build, "rust"@, Seq::<Seq<char>>::empty()),
            (".gradle"@, ".gradle"@, ArtifactKind::Cache, "java"@, Seq::<Seq<char>>::empty()),
            (".dart_tool"@, ".dart_tool"@, ArtifactKind::Cache, "dart"@, Seq::<Seq<char>>::empty()),
            (".pub-cache"@, ".pub-cache"@, ArtifactKind::Dependency, "dart"@, Seq::<Seq<char>>::empty()),
            (".idea"@, ".idea"@, ArtifactKind::Cache, "generic"@, Seq::<Seq<char>>::empty()),
            ("Build Output"@, "build"@, ArtifactKind::Build, "generic"@, seq![
                "package.json"@, "Cargo.toml"@, "pyproject.toml"@, "requirements.txt"@,
                "build.gradle"@, "build.gradle.kts"@, "settings.gradle"@, "pubspec.yaml"@,
                "go.mod"@,
            ]),
            ("Distribution Output"@, "dist"@, ArtifactKind::Build, "javascript"@, seq!["package.json"@]),
            (".NET bin"@, "bin"@, ArtifactKind::Build, "dotnet"@, seq![
                "*.csproj"@, "*.fsproj"@, "*.vbproj"@, "*.sln"@,
            ]),
            (".NET obj"@, "obj"@, ArtifactKind::Build, "dotnet"@, seq![
                "*.csproj"@, "*.fsproj"@, "*.vbproj"@, "*.sln"@,
            ]),
        ],
        forall|i: int|
            0 <= i < built_in_rule_views().len() ==> (#[trigger] built_in_rule_views()[i]).enabled
                && (built_in_rule_views()[i].match_kind == RuleMatchKind::Exact
                <==> built_in_rule_views()[i].required_markers.len() == 0),
{
    assert(built_in_rule_views().map_values(
        |r: RuleView| (r.name, r.directory_name, r.kind, r.ecosystem, r.required_markers),
    ) =~= seq![
            ("Node Modules"@, "node_modules"@, ArtifactKind::Dependency, "javascript"@, Seq::<Seq<char>>::empty()),
            (".pnpm-store"@, ".pnpm-store"@, ArtifactKind::Cache, "javascript"@, Seq::<Seq<char>>::empty()),
            (".yarn"@, ".yarn"@, ArtifactKind::Cache, "javascript"@, Seq::<Seq<char>>::empty()),
            (".next"@, ".next"@, ArtifactKind::Build, "javascript"@, Seq::<Seq<char>>::empty()),
            (".turbo"@, ".turbo"@, ArtifactKind::Cache, "javascript"@, Seq::<Seq<char>>::empty()),
            (".cache"@, ".cache"@, ArtifactKind::Cache, "generic"@, Seq::<Seq<char>>::empty()),
            (".parcel-cache"@, ".parcel-cache"@, ArtifactKind::Cache, "javascript"@, Seq::<Seq<char>>::empty()),
            ("__pycache__"@, "__pycache__"@, ArtifactKind::Cache, "python"@, Seq::<Seq<char>>::empty()),
            (".pytest_cache"@, ".pytest_cache"@, ArtifactKind::Cache, "python"@, Seq::<Seq<char>>::empty()),
            (".mypy_cache"@, ".mypy_cache"@, ArtifactKind::Cache, "python"@, Seq::<Seq<char>>::empty()),
            (".ruff_cache"@, ".ruff_cache"@, ArtifactKind::Cache, "python"@, Seq::<Seq<char>>::empty()),
            (".venv"@, ".venv"@, ArtifactKind::Dependency, "python"@, Seq::<Seq<char>>::empty()),
            ("venv"@, "venv"@, ArtifactKind::Dependency, "python"@, Seq::<Seq<char>>::empty()),
            (".tox"@, ".tox"@, ArtifactKind::Build, "python"@, Seq::<Seq<char>>::empty()),
            ("target"@, "target"@, ArtifactKind::Build, "rust"@, Seq::<Seq<char>>::empty()),
            (".gradle"@, ".gradle"@, ArtifactKind::Cache, "java"@, Seq::<Seq<char>>::empty()),
            (".dart_tool"@, ".dart_tool"@, ArtifactKind::Cache, "dart"@, Seq::<Seq<char>>::empty()),
            (".pub-cache"@, ".pub-cache"@, ArtifactKind::Dependency, "dart"@, Seq::<Seq<char>>::empty()),
            (".idea"@, ".idea"@, ArtifactKind::Cache, "generic"@, Seq::<Seq<char>>::empty()),
            ("Build Output"@, "build"@, ArtifactKind::Build, "generic"@, seq![
                "package.json"@, "Cargo.toml"@, "pyproject.toml"@, "requirements.txt"@,
                "build.gradle"@, "build.gradle.kts"@, "settings.gradle"@, "pubspec.yaml"@,
                "go.mod"@,
            ]),
            ("Distribution Output"@, "dist"@, ArtifactKind::Build, "javascript"@, seq!["package.json"@]),
            (".NET bin"@, "bin"@, ArtifactKind::Build, "dotnet"@, seq![
                "*.csproj"@, "*.fsproj"@, "*.vbproj"@, "*.sln"@,
            ]),
            (".NET obj"@, "obj"@, ArtifactKind::Build, "dotnet"@, seq![
                "*.csproj"@, "*.fsproj"@, "*.vbproj"@, "*.sln"@,
            ]),
        ]);
}

/// The filter cycles all → cache/build → dependencies → all, and the sort
/// alternates between largest first and by path.
pub proof fn law_cycle_orders(f: FilterMode, o: SortMode)
    ensures
        f == FilterMode::All ==> next_filter(f) == FilterMode::CacheAndBuild,
        f == FilterMode::CacheAndBuild ==> next_filter(f) == FilterMode::Dependencies,
        f == FilterMode::Dependencies ==> next_filter(f) == FilterMode::All,
        next_sort(o) != o,
{
}

/// The names shown for kinds, strategies, filters and sorts.
pub proof fn law_labels(k: ArtifactKind, s: DeleteStrategy, f: FilterMode, o: SortMode)
    ensures
        kind_label(k) == (if k == ArtifactKind::Cache {
            "cache"@
        } else if k == ArtifactKind::Dependency {
            "dependency"@
        } else {
            "build"@
        }),
        strategy_label(s) == (if s == DeleteStrategy::Trash {
            "trash"@
        } else {
            "permanent"@
        }),
        filter_label_spec(f) == (if f == FilterMode::All {
            "all"@
        } else if f == FilterMode::CacheAndBuild {
            "cache/build"@
        } else {
            "deps"@
        }),
        sort_label_spec(o) == (if o == SortMode::LargestFirst {
            "largest"@
        } else {
            "path"@
        }),
{
}

/// The units of `--older-than`: `h` is an hour, `d` (or no unit) a day of
/// 24 hours, `w` a week of 7 days, `m` a month of 30 days, `y` a year of 365
/// days; no other unit is known.
pub proof fn law_age_units(unit: Seq<char>)
    ensures
        unit_seconds(unit) is Some <==> (unit == "h"@ || unit == "d"@ || unit == ""@ || unit
            == "w"@ || unit == "m"@ || unit == "y"@),
        unit == "h"@ ==> unit_seconds(unit) == Some(60 * 60nat),
        unit == "d"@ || unit == ""@ ==> unit_seconds(unit) == Some(86400nat),
        unit == "w"@ ==> unit_seconds(unit) == Some(7 * 86400nat),
        unit == "m"@ ==> unit_seconds(unit) == Some(30 * 86400nat),
        unit == "y"@ ==> unit_seconds(unit) == Some(365 * 86400nat),
{
    reveal_strlit("h");
    reveal_strlit("d");
    reveal_strlit("");
    reveal_strlit("w");
    reveal_strlit("m");
    reveal_strlit("y");
    assert("h"@[0] == 'h' && "d"@[0] == 'd' && "w"@[0] == 'w' && "m"@[0] == 'm' && "y"@[0]
        == 'y');
    assert(""@.len() == 0 && "h"@.len() == 1 && "d"@.len() == 1 && "w"@.len() == 1);
    assert("d"@ != "h"@ && ""@ != "h"@ && ""@ != "d"@);
    assert("w"@ != "h"@ && "w"@ != "d"@ && "w"@ != ""@);
    assert("m"@ != "h"@ && "m"@ != "d"@ && "m"@ != ""@ && "m"@ != "w"@);
    assert("y"@ != "h"@ && "y"@ != "d"@ && "y"@ != ""@ && "y"@ != "w"@ && "y"@ != "m"@);
}

/// A directory passes a minimum age when there is no minimum, when its age
/// is unknown or in the future, and otherwise exactly when it is at least
/// that many seconds old.
pub proof fn law_age_filter(min_age: Option<u64>, age: Age, min: u64, secs: u64)
    ensures
        passes_age(None, age),
        passes_age(min_age, Age::Unknown),
        passes_age(min_age, Age::InFuture),
        passes_age(Some(min), Age::Secs(secs)) <==> secs >= min,
{
}

/// The release tag asked for: none for no text, a blank text or `latest` in
/// any case; otherwise the trimmed text, starting with one added `v` unless
/// it already starts with `v`.
pub proof fn law_requested_tag(raw: Seq<char>)
    ensures
        requested_tag_spec(None) is None,
        requested_tag_spec(Some(raw)) is None <==> (trimmed(raw).len() == 0
            || eq_ignore_ascii_case_spec(trimmed(raw), "latest"@)),
        requested_tag_spec(Some(raw)) matches Some(t) ==> t.len() > 0 && t[0] == 'v' && (if trimmed(
            raw,
        )[0] == 'v' {
            t == trimmed(raw)
        } else {
            t.drop_first() == trimmed(raw)
        }),
{
    if let Some(t) = requested_tag_spec(Some(raw)) {
        if trimmed(raw)[0] != 'v' {
            assert((seq!['v'] + trimmed(raw)).drop_first() =~= trimmed(raw));
        }
    }
}

/// A release asset is named `reposweep-`, the tag, `-`, the target triple,
/// then `.tar.gz` or, for zip archives, `.zip`.
pub proof fn law_asset_names(tag: Seq<char>, triple: Seq<char>, kind: ArchiveKind)
    ensures
        asset_name_spec(tag, triple, kind) == "reposweep-"@ + tag + "-"@ + triple + "."@ + (if kind
            == ArchiveKind::Zip {
            "zip"@
        } else {
            "tar.gz"@
        }),
        extension_spec(ArchiveKind::TarGz) == "tar.gz"@,
        extension_spec(ArchiveKind::Zip) == "zip"@,
{
}

/// The default configuration protects `.git`, `.github` and
/// `.idea/runConfigurations` below each scan root.
pub proof fn law_default_protected()
    ensures
        default_protected_paths() == seq![
            parse_spec(".git"@),
            parse_spec(".github"@),
            parse_spec(".idea/runConfigurations"@),
        ],
{
}

/// Sizes are written in binary units: whole bytes below 1024, then KB, MB,
/// GB and TB, each 1024 times the one before.
pub proof fn law_byte_units(b: nat)
    ensures
        b < 1024 ==> unit_of(b) == 0 && format_bytes_spec(b) == decimal(b) + " B"@,
        1024 <= b < 1024 * 1024 ==> unit_of(b) == 1,
        1024 * 1024 <= b < 1024 * 1024 * 1024 ==> unit_of(b) == 2,
        1024 * 1024 * 1024 <= b < 1024 * 1024 * 1024 * 1024 ==> unit_of(b) == 3,
        1024 * 1024 * 1024 * 1024 <= b ==> unit_of(b) == 4,
        unit_name(0) == "B"@,
        unit_name(1) == "KB"@,
        unit_name(2) == "MB"@,
        unit_name(3) == "GB"@,
        unit_name(4) == "TB"@,
{
    reveal_with_fuel(unit_scale, 5);
}

/// Largest first lists a bigger item before a smaller one whatever their
/// paths; by path lists the item with the earlier path first whatever
/// their sizes.
pub proof fn law_sort_orders(items: Seq<ScanItem>, a: int, b: int)
    requires
        0 <= a < items.len(),
        0 <= b < items.len(),
    ensures
        size_of(items[a]) > size_of(items[b]) ==> shown_before(items, SortMode::LargestFirst, a, b)
            && !shown_before(items, SortMode::LargestFirst, b, a),
        path_lt(items[a].path@, items[b].path@) ==> shown_before(
            items,
            SortMode::PathAscending,
            a,
            b,
        ),
{
}

/// An uninstall is confirmed by `y`, `Y`, `yes`, `YES` or `Yes` and by no
/// other answer; the walk follows exactly the entries that are directories
/// and not symbolic links.
pub proof fn law_answers_and_entries(answer: Seq<char>, is_dir: bool, is_symlink: bool)
    ensures
        is_yes_answer(answer) <==> (answer == "y"@ || answer == "Y"@ || answer == "yes"@ || answer
            == "YES"@ || answer == "Yes"@),
        follows_entry_spec(is_dir, is_symlink) <==> (is_dir && !is_symlink),
{
}

/// Which keys a screen takes: the cleanup summary first, then the deletion
/// in progress, then a deletion waiting for confirmation, then the screen
/// shown (the error screen takes the home screen's keys).
pub proof fn law_key_routes(m: AppModel, deleting: bool)
    ensures
        m.summary is Some ==> route_spec(m, deleting) == KeyRoute::Summary,
        m.summary is None && deleting ==> route_spec(m, deleting) == KeyRoute::DeleteProgress,
        m.summary is None && !deleting && (m.results matches Some(r) && r.pending_delete is Some)
            ==> route_spec(m, deleting) == KeyRoute::Confirm,
        m.summary is None && !deleting && !(m.results matches Some(r) && r.pending_delete is Some)
            ==> route_spec(m, deleting) == (if m.screen == Screen::Scanning {
            KeyRoute::Scanning
        } else if m.screen == Screen::Results {
            KeyRoute::Results
        } else {
            KeyRoute::Home
        }),
{
}

/// While a scan runs, `c` and Esc cancel it, `q` cancels it and quits, and
/// no other key does anything; while a deletion runs, only `q` does
/// something: it quits.
pub proof fn law_busy_keys(m: AppModel, f: AppModel, key: Key, control: bool, deleting: bool, r: KeyAction)
    requires
        key_effect(m, f, key, control, deleting, r),
    ensures
        route_spec(m, deleting) == KeyRoute::Scanning ==> {
            &&& r is CancelScan <==> (key == Key::Char('c') || key == Key::Esc || key == Key::Char(
                'q',
            ))
            &&& key == Key::Char('q') ==> f.should_quit
            &&& key != Key::Char('q') ==> f == m
        },
        route_spec(m, deleting) == KeyRoute::DeleteProgress ==> {
            &&& r is Nothing
            &&& f.should_quit == (m.should_quit || key == Key::Char('q'))
        },
{
}

/// Moving a selection stays within the list: by `delta` when that stays
/// inside it, else to the first or the last entry; an empty list keeps
/// position zero.
pub proof fn law_shift(current: int, len: int, delta: int)
    ensures
        len == 0 ==> shifted(current, len, delta) == 0,
        len > 0 ==> 0 <= shifted(current, len, delta) < len,
        len > 0 && 0 <= current + delta < len ==> shifted(current, len, delta) == current + delta,
        len > 0 && current + delta < 0 ==> shifted(current, len, delta) == 0,
        len > 0 && current + delta >= len ==> shifted(current, len, delta) == len - 1,
{
}

/// The self-upgrade keeps the running version, refuses an older release
/// unless it was asked for by name, and installs a newer one.
pub proof fn law_upgrade_decisions(order: VersionOrder, requested: bool)
    ensures
        decide(order, requested) == UpgradeDecision::AlreadyCurrent <==> order == VersionOrder::Same,
        decide(order, requested) == UpgradeDecision::RefuseDowngrade <==> (order
            == VersionOrder::Older && !requested),
        decide(order, requested) == UpgradeDecision::Install <==> (order == VersionOrder::Newer || (
        order == VersionOrder::Older && requested)),
{
}

/// The default configuration moves deleted directories to the trash,
/// disables nothing and adds no rule.
pub proof fn law_default_config(c: Config)
    requires
        is_default_config(c),
    ensures
        c.default_delete_strategy == DeleteStrategy::Trash,
        c.disabled_ecosystems@.len() == 0,
        c.custom_rules@.len() == 0,
        paths_view(c.protected_paths@) == default_protected_paths(),
{
}

} // verus!
