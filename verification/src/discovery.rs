//! The walk that finds disposable directories below the roots of a scan.
//!
//! The walk is breadth first. The caller does the file-system work: it asks
//! for the next step, looks at the directory or root it is given, and hands
//! back what it found; the walk decides what is skipped, matched, or
//! descended into, and keeps the items and warnings.
use vstd::prelude::*;
use vstd::string::*;

use crate::domain::{scope_includes, ScanEvent, ScanItem, ScanScope, ScanWarning};
use crate::fspath::{cur_comp, is_absolute_spec, join_spec, root_comp, starts_with_spec, FsPath};
use crate::rules::{first_match_from, is_protected_spec, rule_outcome, MarkerFacts, RuleMatch, RuleSet, RuleSetView};
use crate::text::{owned, push_str};

verus! {

/// What the walk asks of its caller next.
pub enum WalkStep {
    /// Check that this root exists; then `enter_root` with its canonical
    /// form, or `root_missing`.
    Root(FsPath),
    /// Examine this directory (it has been counted as scanned).
    Dir(FsPath),
    /// Nothing is left.
    Done,
}

/// What the walk makes of a directory.
pub enum Verdict {
    /// Skipped with a warning, which is to be sent on.
    Skipped(ScanEvent),
    /// A rule matched and the scan's scope includes its kind; the
    /// directory's age decides, by `accept_match`, whether it is reported.
    Matched,
    /// A rule matched but the scan's scope excludes its kind.
    Excluded,
    /// No rule matched: the caller lists the subdirectories and `enqueue`s
    /// their names.
    Descend,
}

/// How long ago a directory was last modified.
#[derive(Clone, Copy, Debug, PartialEq, Eq, Structural)]
pub enum Age {
    /// The file system gave no modification time.
    Unknown,
    /// The modification time lies in the future.
    InFuture,
    /// So many whole seconds ago.
    Secs(u64),
}

/// A listing step that failed below a directory.
#[derive(Clone, Copy, Debug, PartialEq, Eq, Structural)]
pub enum ReadFailure {
    /// The directory could not be listed.
    Directory,
    /// An entry of the listing could not be read.
    Entry,
    /// The type of an entry could not be read.
    FileType,
}

/// Whether a directory of this age passes a minimum age (in seconds): it
/// passes when there is no minimum, when its age is unknown or in the
/// future, and otherwise when it is at least that old.
pub open spec fn passes_age(min_age: Option<u64>, age: Age) -> bool {
    match (min_age, age) {
        (Some(min), Age::Secs(secs)) => secs >= min,
        _ => true,
    }
}

/// Whether a directory of age `age` passes the minimum age `min_age`.
pub fn matches_age_filter(min_age: Option<u64>, age: Age) -> (r: bool)
    ensures
        r == passes_age(min_age, age),
{
    match (min_age, age) {
        (Some(min), Age::Secs(secs)) => secs >= min,
        _ => true,
    }
}

/// Whether the walk follows a listed entry: it is a directory, and not a
/// symbolic link (links are never followed).
pub open spec fn follows_entry_spec(is_dir: bool, is_symlink: bool) -> bool {
    is_dir && !is_symlink
}

/// Whether the walk follows a listed entry (see `follows_entry_spec`).
pub fn follows_entry(is_dir: bool, is_symlink: bool) -> (r: bool)
    ensures
        r == follows_entry_spec(is_dir, is_symlink),
{
    is_dir && !is_symlink
}

/// The text of a listing failure, followed by the system's description.
pub open spec fn failure_text(failure: ReadFailure, detail: Seq<char>) -> Seq<char> {
    match failure {
        ReadFailure::Directory => "failed to read directory: "@ + detail,
        ReadFailure::Entry => "failed to read directory entry: "@ + detail,
        ReadFailure::FileType => "failed to read file type: "@ + detail,
    }
}

/// The plain value of a warning.
pub open spec fn warning_view(w: ScanWarning) -> (Option<Seq<Seq<char>>>, Seq<char>) {
    (
        match w.path {
            Some(p) => Some(p@),
            None => None,
        },
        w.message@,
    )
}

/// The plain values of warnings.
pub open spec fn warning_views(ws: Seq<ScanWarning>) -> Seq<(Option<Seq<Seq<char>>>, Seq<char>)> {
    ws.map_values(|w: ScanWarning| warning_view(w))
}

impl ScanWarning {
    /// A copy of this warning.
    pub fn duplicate(&self) -> (r: ScanWarning)
        ensures
            warning_view(r) == warning_view(*self),
    {
        ScanWarning {
            path: match &self.path {
                Some(p) => Some(p.duplicate()),
                None => None,
            },
            message: self.message.clone(),
        }
    }
}

/// The directories, items and warnings of a finished walk.
pub struct DiscoveryOutput {
    pub items: Vec<ScanItem>,
    pub warnings: Vec<ScanWarning>,
    pub scanned_dirs: usize,
}

/// One examination of a directory met during the walk: the root it was met
/// under, the directory, the rules and scope it was judged by, the marker
/// files found around it, and whether it held a `.shatterignore` file.
pub struct Examined {
    pub root: Seq<Seq<char>>,
    pub dir: Seq<Seq<char>>,
    pub rules: RuleSetView,
    pub scope: ScanScope,
    pub facts: Seq<(Seq<Seq<char>>, Seq<char>)>,
    pub ignored: bool,
}

/// Whether an examination meets a protected directory other than the root.
pub open spec fn protected_below(e: Examined) -> bool {
    is_protected_spec(e.rules.protected_paths, e.root, e.dir) && e.dir != e.root
}

/// The first rule that recognises the examined directory, if any.
pub open spec fn matched_rule(e: Examined) -> Option<int> {
    first_match_from(e.rules.rules, 0, e.dir, e.root, e.facts)
}

/// Whether the walk descends below an examined directory: it holds no
/// `.shatterignore`, is not protected, and no rule recognises it.
pub open spec fn descends(e: Examined) -> bool {
    !e.ignored && !protected_below(e) && matched_rule(e) is None
}

/// Whether an examined directory is a match within the scan's scope: it
/// holds no `.shatterignore`, is not protected, and the first rule that
/// recognises it has a kind the scope includes.
pub open spec fn reports(e: Examined) -> bool {
    &&& !e.ignored
    &&& !protected_below(e)
    &&& matched_rule(e) matches Some(i) && scope_includes(e.scope, e.rules.rules[i].kind)
}

/// What the walk has recorded about the directories it met: those it
/// descended into, by root and directory, and the subdirectories it queued
/// after they were listed as directories that are not symbolic links.
pub struct Trace {
    pub descents: Map<(Seq<Seq<char>>, Seq<Seq<char>>), Examined>,
    pub listed: Set<(Seq<Seq<char>>, Seq<Seq<char>>)>,
}

/// Whether `dir` is reached from `root`: it is the root itself, or it was
/// listed as a directory (not a link) inside its parent, which the walk
/// descended into under that root.
pub open spec fn reached(root: Seq<Seq<char>>, dir: Seq<Seq<char>>, t: Trace) -> bool {
    dir == root || (dir.len() > 0 && t.descents.contains_key((root, dir.drop_last()))
        && t.listed.contains((root, dir)))
}

/// Whether `e`, recorded for root and directory `k`, is a directory below
/// that root, reached from it, that the walk descended into.
pub open spec fn descent_ok(k: (Seq<Seq<char>>, Seq<Seq<char>>), e: Examined, t: Trace) -> bool {
    &&& e.root == k.0
    &&& e.dir == k.1
    &&& descends(e)
    &&& starts_with_spec(e.dir, e.root)
    &&& reached(e.root, e.dir, t)
}

/// Whether each recorded descent is a directory below its root, reached
/// from it, that the walk descended into.
pub open spec fn descents_ok(t: Trace) -> bool {
    forall|k: (Seq<Seq<char>>, Seq<Seq<char>>)| #[trigger]
        t.descents.contains_key(k) ==> descent_ok(k, t.descents[k], t)
}

proof fn lemma_descend(t: Trace, e: Examined)
    requires
        descents_ok(t),
        descends(e),
        starts_with_spec(e.dir, e.root),
        reached(e.root, e.dir, t),
    ensures
        descents_ok(Trace { descents: t.descents.insert((e.root, e.dir), e), listed: t.listed }),
        forall|root: Seq<Seq<char>>, dir: Seq<Seq<char>>|
            reached(root, dir, t) ==> #[trigger] reached(
                root,
                dir,
                Trace { descents: t.descents.insert((e.root, e.dir), e), listed: t.listed },
            ),
{
    let m = Trace { descents: t.descents.insert((e.root, e.dir), e), listed: t.listed };
    assert forall|root: Seq<Seq<char>>, dir: Seq<Seq<char>>|
        reached(root, dir, t) implies #[trigger] reached(root, dir, m) by {
        if dir != root {
            assert(m.descents.contains_key((root, dir.drop_last())));
        }
    }
    assert forall|k: (Seq<Seq<char>>, Seq<Seq<char>>)| #[trigger]
        m.descents.contains_key(k) implies descent_ok(k, m.descents[k], m) by {
        if k != (e.root, e.dir) {
            assert(t.descents.contains_key(k));
            assert(descent_ok(k, t.descents[k], t));
            assert(reached(m.descents[k].root, m.descents[k].dir, m));
        }
    }
}

proof fn lemma_list(t: Trace, root: Seq<Seq<char>>, child: Seq<Seq<char>>)
    requires
        descents_ok(t),
    ensures
        descents_ok(Trace { descents: t.descents, listed: t.listed.insert((root, child)) }),
        forall|r: Seq<Seq<char>>, d: Seq<Seq<char>>|
            reached(r, d, t) ==> #[trigger] reached(
                r,
                d,
                Trace { descents: t.descents, listed: t.listed.insert((root, child)) },
            ),
{
    let m = Trace { descents: t.descents, listed: t.listed.insert((root, child)) };
    assert forall|r: Seq<Seq<char>>, d: Seq<Seq<char>>|
        reached(r, d, t) implies #[trigger] reached(r, d, m) by {
        if d != r {
            assert(m.listed.contains((r, d)));
        }
    }
    assert forall|k: (Seq<Seq<char>>, Seq<Seq<char>>)| #[trigger]
        m.descents.contains_key(k) implies descent_ok(k, m.descents[k], m) by {
        assert(descent_ok(k, t.descents[k], t));
        assert(reached(m.descents[k].root, m.descents[k].dir, m));
    }
}

/// Every directory between a root and a directory reached from it was
/// descended into (the root included, the directory itself not): it held no
/// `.shatterignore`, was not protected, and no rule recognised it. And every
/// directory on the way below the root, the reached one included, was
/// listed as a directory that is not a symbolic link.
pub proof fn lemma_ancestors_descended(root: Seq<Seq<char>>, dir: Seq<Seq<char>>, t: Trace)
    requires
        descents_ok(t),
        reached(root, dir, t),
    ensures
        forall|j: int|
            root.len() <= j < dir.len() ==> t.descents.contains_key((root, #[trigger] dir.take(j)))
                && descends(t.descents[(root, dir.take(j))]),
        forall|j: int|
            root.len() < j <= dir.len() && dir != root ==> t.listed.contains(
                (root, #[trigger] dir.take(j)),
            ),
    decreases dir.len(),
{
    if dir != root {
        let parent = dir.drop_last();
        assert(t.descents.contains_key((root, parent)));
        assert(descent_ok((root, parent), t.descents[(root, parent)], t));
        lemma_ancestors_descended(root, parent, t);
        assert forall|j: int| root.len() <= j < dir.len() implies t.descents.contains_key(
            (root, #[trigger] dir.take(j)),
        ) && descends(t.descents[(root, dir.take(j))]) by {
            if j < dir.len() - 1 {
                assert(dir.take(j) =~= parent.take(j));
            } else {
                assert(dir.take(j) =~= parent);
            }
        }
        assert forall|j: int| root.len() < j <= dir.len() && dir != root implies t.listed.contains(
            (root, #[trigger] dir.take(j)),
        ) by {
            if j < dir.len() {
                assert(dir.take(j) =~= parent.take(j));
                assert(parent != root);
            } else {
                assert(dir.take(j) =~= dir);
            }
        }
    }
}

/// A found directory and why it was found: its examination, and the minimum
/// age it was held to with its age.
pub struct Finding {
    pub exam: Examined,
    pub min_age: Option<u64>,
    pub age: Age,
}

/// Whether `item` is what the walk reports for the match `e`, last
/// modified at `modified`.
pub open spec fn item_for(item: ScanItem, e: Examined, modified: Option<u64>) -> bool {
    &&& item.path@ == e.dir
    &&& item.bytes is None
    &&& item.last_modified == modified
    &&& item.notes@.len() == 0
    &&& matched_rule(e) matches Some(i) && {
        &&& item.kind == e.rules.rules[i].kind
        &&& item.ecosystem@ == e.rules.rules[i].ecosystem
        &&& item.rule_name@ == e.rules.rules[i].name
        &&& rule_outcome(e.rules.rules[i], e.dir, e.root, e.facts) == Some(item@.project_root)
    }
}

/// Whether `item` was found as `f` says: a directory below its root, matched
/// within the scope, old enough, and reported with the matching rule's kind,
/// ecosystem and name and the project it belongs to; its size is not
/// measured yet.
pub open spec fn found_by(item: ScanItem, f: Finding) -> bool {
    &&& reports(f.exam)
    &&& starts_with_spec(f.exam.dir, f.exam.root)
    &&& passes_age(f.min_age, f.age)
    &&& item_for(item, f.exam, item.last_modified)
}

/// Whether a rule match is the one an examination found.
pub open spec fn match_for(m: RuleMatch, e: Examined) -> bool {
    matched_rule(e) matches Some(i) && m.rule@ == e.rules.rules[i] && rule_outcome(
        e.rules.rules[i],
        e.dir,
        e.root,
        e.facts,
    ) == Some(
        match m.project_root {
            Some(p) => Some(p@),
            None => None,
        },
    )
}

/// A breadth-first walk over the roots of a scan.
pub struct Discovery {
    roots: Vec<FsPath>,
    next_root: usize,
    queue: Vec<FsPath>,
    head: usize,
    root: Option<FsPath>,
    items: Vec<ScanItem>,
    warnings: Vec<ScanWarning>,
    scanned_dirs: usize,
    examining: Option<FsPath>,
    matched: Option<(FsPath, RuleMatch)>,
    descending: Option<FsPath>,
    match_exam: Ghost<Examined>,
    findings: Ghost<Seq<Finding>>,
    trace: Ghost<Trace>,
}

impl Discovery {
    /// The roots not yet started, in order.
    pub closed spec fn roots_left(&self) -> Seq<Seq<Seq<char>>> {
        self.roots@.subrange(self.next_root as int, self.roots@.len() as int).map_values(
            |p: FsPath| p@,
        )
    }

    /// The directories waiting to be examined, first first.
    pub closed spec fn pending(&self) -> Seq<Seq<Seq<char>>> {
        self.queue@.subrange(self.head as int, self.queue@.len() as int).map_values(
            |p: FsPath| p@,
        )
    }

    /// The canonical form of the root being walked.
    pub closed spec fn current_root(&self) -> Option<Seq<Seq<char>>> {
        match self.root {
            Some(r) => Some(r@),
            None => None,
        }
    }

    /// The directory handed out to be examined, until it is examined.
    pub closed spec fn examining(&self) -> Option<Seq<Seq<char>>> {
        match self.examining {
            Some(d) => Some(d@),
            None => None,
        }
    }

    /// The examination of a match that waits for `accept_match`.
    pub closed spec fn pending_match(&self) -> Option<Examined> {
        match self.matched {
            Some(_) => Some(self.match_exam@),
            None => None,
        }
    }

    /// The directory whose subdirectories are being queued.
    pub closed spec fn descending(&self) -> Option<Seq<Seq<char>>> {
        match self.descending {
            Some(d) => Some(d@),
            None => None,
        }
    }

    /// The items found so far.
    pub closed spec fn found(&self) -> Seq<ScanItem> {
        self.items@
    }

    /// Why each item was found.
    pub closed spec fn findings(&self) -> Seq<Finding> {
        self.findings@
    }

    /// What the walk has recorded of the directories it met.
    pub closed spec fn trace(&self) -> Trace {
        self.trace@
    }

    /// The warnings so far.
    pub closed spec fn noticed(&self) -> Seq<(Option<Seq<Seq<char>>>, Seq<char>)> {
        warning_views(self.warnings@)
    }

    /// The number of directories examined so far.
    pub closed spec fn scanned(&self) -> nat {
        self.scanned_dirs as nat
    }

    /// Whether the walk is consistent: its positions are in range; every
    /// directory waiting or handed out lies below the current root and is
    /// reached from it; every found item was found as its finding says, from
    /// a reached directory; and the descents are recorded faithfully.
    pub closed spec fn wf(&self) -> bool {
        &&& self.head <= self.queue@.len()
        &&& self.next_root <= self.roots@.len()
        &&& self.items@.len() == self.findings@.len()
        &&& forall|k: int|
            0 <= k < self.items@.len() ==> found_by(self.items@[k], #[trigger] self.findings@[k])
                && reached(self.findings@[k].exam.root, self.findings@[k].exam.dir, self.trace@)
        &&& descents_ok(self.trace@)
        &&& self.head < self.queue@.len() ==> self.root is Some
        &&& forall|j: int|
            self.head <= j < self.queue@.len() ==> starts_with_spec(
                (#[trigger] self.queue@[j])@,
                self.root.unwrap()@,
            ) && reached(self.root.unwrap()@, self.queue@[j]@, self.trace@)
        &&& self.examining matches Some(d) ==> self.root matches Some(r) && starts_with_spec(
            d@,
            r@,
        ) && reached(r@, d@, self.trace@)
        &&& self.matched matches Some(pair) ==> {
            let e = self.match_exam@;
            &&& e.dir == pair.0@
            &&& reports(e)
            &&& starts_with_spec(e.dir, e.root)
            &&& reached(e.root, e.dir, self.trace@)
            &&& match_for(pair.1, e)
        }
        &&& self.descending matches Some(d) ==> self.root matches Some(r)
            && self.trace@.descents.contains_key((r@, d@))
    }

    /// A walk over `roots`, which has found nothing yet.
    pub fn new(roots: &Vec<FsPath>) -> (r: Discovery)
        ensures
            r.wf(),
            r.roots_left() == roots@.map_values(|p: FsPath| p@),
            r.pending().len() == 0,
            r.current_root() is None,
            r.examining() is None,
            r.pending_match() is None,
            r.descending() is None,
            r.found().len() == 0,
            r.findings().len() == 0,
            r.trace() == (Trace { descents: Map::empty(), listed: Set::empty() }),
            r.noticed().len() == 0,
            r.scanned() == 0,
    {
        let mut copy: Vec<FsPath> = Vec::new();
        let n = roots.len();
        let mut i: usize = 0;
        while i < n
            invariant
                n == roots@.len(),
                i <= n,
                copy@.map_values(|p: FsPath| p@) == roots@.take(i as int).map_values(
                    |p: FsPath| p@,
                ),
            decreases n - i,
        {
            let p = roots[i].duplicate();
            let ghost before = copy@;
            copy.push(p);
            assert(copy@.map_values(|p: FsPath| p@) =~= before.map_values(|p: FsPath| p@).push(
                p@,
            ));
            assert(roots@.take(i + 1) =~= roots@.take(i as int).push(roots@[i as int]));
            assert(copy@.map_values(|p: FsPath| p@) =~= roots@.take(i + 1).map_values(
                |p: FsPath| p@,
            ));
            i = i + 1;
        }
        assert(roots@.take(n as int) =~= roots@);
        let r = Discovery {
            roots: copy,
            next_root: 0,
            queue: Vec::new(),
            head: 0,
            root: None,
            items: Vec::new(),
            warnings: Vec::new(),
            scanned_dirs: 0,
            examining: None,
            matched: None,
            descending: None,
            match_exam: Ghost(
                Examined {
                    root: Seq::empty(),
                    dir: Seq::empty(),
                    rules: RuleSetView { rules: Seq::empty(), protected_paths: Seq::empty() },
                    scope: ScanScope::All,
                    facts: Seq::empty(),
                    ignored: false,
                },
            ),
            findings: Ghost(Seq::empty()),
            trace: Ghost(Trace { descents: Map::empty(), listed: Set::empty() }),
        };
        assert(r.roots_left() =~= roots@.map_values(|p: FsPath| p@));
        assert(r.pending() =~= Seq::<Seq<Seq<char>>>::empty());
        assert(r.noticed() =~= Seq::<(Option<Seq<Seq<char>>>, Seq<char>)>::empty());
        r
    }

    /// The next step: nothing when the scan was cancelled (`cancelled`);
    /// else the first waiting directory, counted as scanned and handed out
    /// to be examined; when none waits, the next root; when none is left,
    /// `Done`.
    pub fn next_step(&mut self, cancelled: bool) -> (r: WalkStep)
        requires
            old(self).wf(),
            old(self).scanned() < usize::MAX,
        ensures
            final(self).wf(),
            final(self).current_root() == old(self).current_root(),
            final(self).found() == old(self).found(),
            final(self).findings() == old(self).findings(),
            final(self).trace() == old(self).trace(),
            final(self).noticed() == old(self).noticed(),
            final(self).pending_match() is None,
            final(self).descending() is None,
            !(r is Dir) ==> final(self).examining() is None,
            cancelled ==> {
                &&& r is Done
                &&& final(self).pending() == old(self).pending()
                &&& final(self).roots_left() == old(self).roots_left()
                &&& final(self).scanned() == old(self).scanned()
            },
            !cancelled && old(self).pending().len() > 0 ==> {
                &&& r matches WalkStep::Dir(d) && d@ == old(self).pending()[0]
                    && final(self).examining() == Some(d@)
                &&& final(self).pending() == old(self).pending().drop_first()
                &&& final(self).roots_left() == old(self).roots_left()
                &&& final(self).scanned() == old(self).scanned() + 1
            },
            !cancelled && old(self).pending().len() == 0 && old(self).roots_left().len() > 0 ==> {
                &&& r matches WalkStep::Root(p) && p@ == old(self).roots_left()[0]
                &&& final(self).roots_left() == old(self).roots_left().drop_first()
                &&& final(self).pending().len() == 0
                &&& final(self).scanned() == old(self).scanned()
            },
            !cancelled && old(self).pending().len() == 0 && old(self).roots_left().len() == 0 ==> {
                &&& r is Done
                &&& final(self).roots_left().len() == 0
                &&& final(self).pending().len() == 0
                &&& final(self).scanned() == old(self).scanned()
            },
    {
        self.examining = None;
        self.matched = None;
        self.descending = None;
        if cancelled {
            WalkStep::Done
        } else if self.head < self.queue.len() {
            let dir = self.queue[self.head].duplicate();
            let ghost before = self.pending();
            self.examining = Some(dir.duplicate());
            self.head = self.head + 1;
            self.scanned_dirs = self.scanned_dirs + 1;
            assert(self.pending() =~= before.drop_first());
            WalkStep::Dir(dir)
        } else if self.next_root < self.roots.len() {
            let root = self.roots[self.next_root].duplicate();
            let ghost before = self.roots_left();
            self.next_root = self.next_root + 1;
            assert(self.roots_left() =~= before.drop_first());
            WalkStep::Root(root)
        } else {
            WalkStep::Done
        }
    }

    /// A root that does not exist: warns and goes on with the next one.
    pub fn root_missing(&mut self, root: FsPath) -> (r: ScanEvent)
        requires
            old(self).wf(),
        ensures
            final(self).wf(),
            final(self).noticed() == old(self).noticed().push(
                (Some(root@), "root does not exist"@),
            ),
            r matches ScanEvent::Warning(w) && warning_view(w) == (
                Some(root@),
                "root does not exist"@,
            ),
            final(self).roots_left() == old(self).roots_left(),
            final(self).pending() == old(self).pending(),
            final(self).current_root() == old(self).current_root(),
            final(self).examining() == old(self).examining(),
            final(self).pending_match() == old(self).pending_match(),
            final(self).descending() == old(self).descending(),
            final(self).found() == old(self).found(),
            final(self).findings() == old(self).findings(),
            final(self).trace() == old(self).trace(),
            final(self).scanned() == old(self).scanned(),
    {
        proof {
            reveal_strlit("root does not exist");
        }
        self.warn(Some(root), owned("root does not exist"))
    }

    /// Starts the walk of a root, given in canonical form: it is the first
    /// directory to examine.
    pub fn enter_root(&mut self, canonical: FsPath)
        requires
            old(self).wf(),
        ensures
            final(self).wf(),
            final(self).current_root() == Some(canonical@),
            final(self).pending() == seq![canonical@],
            final(self).examining() is None,
            final(self).pending_match() is None,
            final(self).descending() is None,
            final(self).roots_left() == old(self).roots_left(),
            final(self).found() == old(self).found(),
            final(self).findings() == old(self).findings(),
            final(self).trace() == old(self).trace(),
            final(self).noticed() == old(self).noticed(),
            final(self).scanned() == old(self).scanned(),
    {
        let first = canonical.duplicate();
        self.examining = None;
        self.matched = None;
        self.descending = None;
        self.root = Some(canonical);
        let mut queue: Vec<FsPath> = Vec::new();
        queue.push(first);
        self.queue = queue;
        self.head = 0;
        assert(first@.is_prefix_of(first@)) by {
            assert(first@.subrange(0, first@.len() as int) =~= first@);
        }
        assert(self.pending() =~= seq![canonical@]);
    }

    /// Examines the directory handed out by `next_step`, met below the
    /// current root; without one, nothing happens. A directory holding a
    /// `.shatterignore` file (`ignored`) is skipped with a warning, and so
    /// is a protected directory other than the root itself. Otherwise the
    /// first matching rule (by `facts`, the marker files found around the
    /// directory) decides: a match is reported when the scope includes its
    /// kind and is never descended into; without a match the walk descends.
    pub fn examine(&mut self, rules: &RuleSet, scope: ScanScope, ignored: bool, facts: &MarkerFacts) -> (r:
        Verdict)
        requires
            old(self).wf(),
        ensures
            final(self).wf(),
            final(self).roots_left() == old(self).roots_left(),
            final(self).pending() == old(self).pending(),
            final(self).current_root() == old(self).current_root(),
            final(self).examining() is None,
            final(self).found() == old(self).found(),
            final(self).findings() == old(self).findings(),
            final(self).scanned() == old(self).scanned(),
            old(self).examining() is None ==> {
                &&& r is Excluded
                &&& final(self).noticed() == old(self).noticed()
                &&& final(self).trace() == old(self).trace()
                &&& final(self).pending_match() == old(self).pending_match()
                &&& final(self).descending() == old(self).descending()
            },
            old(self).examining() matches Some(dir) ==> ({
                let e = Examined {
                    root: old(self).current_root().unwrap(),
                    dir,
                    rules: rules@,
                    scope,
                    facts: facts@,
                    ignored,
                };
                if ignored {
                    &&& final(self).noticed() == old(self).noticed().push(
                        (Some(dir), "skipped because .shatterignore is present"@),
                    )
                    &&& r matches Verdict::Skipped(ScanEvent::Warning(w)) && warning_view(w) == (
                        Some(dir),
                        "skipped because .shatterignore is present"@,
                    )
                    &&& final(self).trace() == old(self).trace()
                    &&& final(self).pending_match() is None
                    &&& final(self).descending() is None
                } else if protected_below(e) {
                    &&& final(self).noticed() == old(self).noticed().push(
                        (Some(dir), "skipped because path is protected by config"@),
                    )
                    &&& r matches Verdict::Skipped(ScanEvent::Warning(w)) && warning_view(w) == (
                        Some(dir),
                        "skipped because path is protected by config"@,
                    )
                    &&& final(self).trace() == old(self).trace()
                    &&& final(self).pending_match() is None
                    &&& final(self).descending() is None
                } else {
                    &&& final(self).noticed() == old(self).noticed()
                    &&& match matched_rule(e) {
                        None => {
                            &&& r is Descend
                            &&& final(self).trace() == (Trace {
                                descents: old(self).trace().descents.insert((e.root, dir), e),
                                listed: old(self).trace().listed,
                            })
                            &&& final(self).descending() == Some(dir)
                            &&& final(self).pending_match() is None
                        },
                        Some(i) => {
                            &&& final(self).trace() == old(self).trace()
                            &&& final(self).descending() is None
                            &&& if scope_includes(scope, rules@.rules[i].kind) {
                                r is Matched && final(self).pending_match() == Some(e)
                            } else {
                                r is Excluded && final(self).pending_match() is None
                            }
                        },
                    }
                }
            }),
    {
        let dir = match self.examining.take() {
            Some(d) => d,
            None => {
                return Verdict::Excluded;
            },
        };
        let root = match &self.root {
            Some(r) => r.duplicate(),
            None => {
                return Verdict::Excluded;
            },
        };
        self.matched = None;
        self.descending = None;
        let ghost e = Examined { root: root@, dir: dir@, rules: rules@, scope, facts: facts@, ignored };
        if ignored {
            proof {
                reveal_strlit("skipped because .shatterignore is present");
            }
            let event = self.warn(Some(dir), owned("skipped because .shatterignore is present"));
            return Verdict::Skipped(event);
        }
        if rules.is_protected_path(&root, &dir) && !dir.same_as(&root) {
            proof {
                reveal_strlit("skipped because path is protected by config");
            }
            let event = self.warn(Some(dir), owned("skipped because path is protected by config"));
            return Verdict::Skipped(event);
        }
        match rules.match_directory(&dir, &root, facts) {
            Some(m) => {
                if scope.includes(m.rule.kind) {
                    self.match_exam = Ghost(e);
                    self.matched = Some((dir, m));
                    Verdict::Matched
                } else {
                    Verdict::Excluded
                }
            },
            None => {
                proof {
                    lemma_descend(self.trace@, e);
                }
                self.trace = Ghost(
                    Trace {
                        descents: self.trace@.descents.insert((root@, dir@), e),
                        listed: self.trace@.listed,
                    },
                );
                self.descending = Some(dir);
                Verdict::Descend
            },
        }
    }

    /// Reports the match that `examine` found when the directory is old
    /// enough: the item has the rule's kind, ecosystem and name, the match's
    /// project root, and the modification time `modified` (seconds since the
    /// epoch); its size is not measured yet. Answers the notice to send when
    /// it was reported. Without a match waiting, nothing happens.
    pub fn accept_match(&mut self, modified: Option<u64>, min_age: Option<u64>, age: Age) -> (r:
        Option<ScanEvent>)
        requires
            old(self).wf(),
        ensures
            final(self).wf(),
            final(self).roots_left() == old(self).roots_left(),
            final(self).pending() == old(self).pending(),
            final(self).current_root() == old(self).current_root(),
            final(self).examining() == old(self).examining(),
            final(self).descending() == old(self).descending(),
            final(self).trace() == old(self).trace(),
            final(self).noticed() == old(self).noticed(),
            final(self).scanned() == old(self).scanned(),
            final(self).pending_match() is None,
            old(self).pending_match() is None || !passes_age(min_age, age) ==> r is None
                && final(self).found() == old(self).found() && final(self).findings() == old(
                self,
            ).findings(),
            old(self).pending_match() matches Some(e) ==> (passes_age(min_age, age) ==> {
                &&& final(self).found().len() == old(self).found().len() + 1
                &&& final(self).found().drop_last() == old(self).found()
                &&& item_for(final(self).found().last(), e, modified)
                &&& final(self).findings() == old(self).findings().push(
                    Finding { exam: e, min_age, age },
                )
                &&& r matches Some(ScanEvent::MatchFound { path, kind, rule_name }) && path@
                    == e.dir && kind == final(self).found().last().kind && rule_name@
                    == final(self).found().last().rule_name@
            }),
    {
        let taken = self.matched.take();
        let (dir, m) = match taken {
            Some(pair) => pair,
            None => {
                return None;
            },
        };
        if !matches_age_filter(min_age, age) {
            return None;
        }
        let event = ScanEvent::MatchFound {
            path: dir.duplicate(),
            kind: m.rule.kind,
            rule_name: m.rule.name.clone(),
        };
        let item = ScanItem {
            path: dir,
            kind: m.rule.kind,
            ecosystem: m.rule.ecosystem,
            rule_name: m.rule.name,
            bytes: None,
            last_modified: modified,
            project_root: m.project_root,
            notes: Vec::new(),
        };
        self.items.push(item);
        self.findings = Ghost(self.findings@.push(Finding { exam: self.match_exam@, min_age, age }));
        Some(event)
    }

    /// Takes in an entry `name` listed in the directory the walk descends
    /// into: it is queued when it is a directory (`is_dir`) and not a
    /// symbolic link (`is_symlink`), see `follows_entry`. When the walk
    /// descends into no directory, nothing happens.
    pub fn enqueue(&mut self, name: &str, is_dir: bool, is_symlink: bool)
        requires
            old(self).wf(),
            name@ != root_comp(),
        ensures
            final(self).wf(),
            old(self).descending() matches Some(d) ==> (follows_entry_spec(is_dir, is_symlink) ==> {
                &&& final(self).pending() == old(self).pending().push(join_spec(d, seq![name@]))
                &&& final(self).trace() == (Trace {
                    descents: old(self).trace().descents,
                    listed: old(self).trace().listed.insert(
                        (old(self).current_root().unwrap(), join_spec(d, seq![name@])),
                    ),
                })
            }),
            old(self).descending() is None || !follows_entry_spec(is_dir, is_symlink) ==> {
                &&& final(self).pending() == old(self).pending()
                &&& final(self).trace() == old(self).trace()
            },
            final(self).roots_left() == old(self).roots_left(),
            final(self).current_root() == old(self).current_root(),
            final(self).examining() == old(self).examining(),
            final(self).pending_match() == old(self).pending_match(),
            final(self).descending() == old(self).descending(),
            final(self).found() == old(self).found(),
            final(self).findings() == old(self).findings(),
            final(self).noticed() == old(self).noticed(),
            final(self).scanned() == old(self).scanned(),
    {
        if !follows_entry(is_dir, is_symlink) {
            return ;
        }
        let child = match &self.descending {
            Some(d) => d.child(name),
            None => {
                return ;
            },
        };
        proof {
            let d = self.descending.unwrap()@;
            let r = self.root.unwrap()@;
            assert(self.trace@.descents.contains_key((r, d)));
            assert(descent_ok((r, d), self.trace@.descents[(r, d)], self.trace@));
            lemma_list(self.trace@, r, child@);
            assert(!is_absolute_spec(seq![name@]));
            if d.len() > 0 && name@ == cur_comp() {
                assert(seq![name@].drop_first() =~= Seq::<Seq<char>>::empty());
                assert(child@ =~= d);
            } else {
                assert(child@ =~= d.push(name@));
                assert(child@.drop_last() =~= d);
                assert(child@.subrange(0, r.len() as int) =~= d.subrange(0, r.len() as int));
            }
        }
        let ghost before = self.pending();
        let ghost root = self.root.unwrap()@;
        self.trace = Ghost(
            Trace { descents: self.trace@.descents, listed: self.trace@.listed.insert((root, child@)) },
        );
        self.queue.push(child);
        assert(self.pending() =~= before.push(child@));
    }

    /// A listing step that failed at `path`: warns with the kind of failure
    /// and the system's description `detail`.
    pub fn report_failure(&mut self, path: FsPath, failure: ReadFailure, detail: &str) -> (r:
        ScanEvent)
        requires
            old(self).wf(),
        ensures
            final(self).wf(),
            final(self).noticed() == old(self).noticed().push(
                (Some(path@), failure_text(failure, detail@)),
            ),
            r matches ScanEvent::Warning(w) && warning_view(w) == (
                Some(path@),
                failure_text(failure, detail@),
            ),
            final(self).roots_left() == old(self).roots_left(),
            final(self).pending() == old(self).pending(),
            final(self).current_root() == old(self).current_root(),
            final(self).examining() == old(self).examining(),
            final(self).pending_match() == old(self).pending_match(),
            final(self).descending() == old(self).descending(),
            final(self).found() == old(self).found(),
            final(self).findings() == old(self).findings(),
            final(self).trace() == old(self).trace(),
            final(self).scanned() == old(self).scanned(),
    {
        let mut message = String::new();
        match failure {
            ReadFailure::Directory => push_str(&mut message, "failed to read directory: "),
            ReadFailure::Entry => push_str(&mut message, "failed to read directory entry: "),
            ReadFailure::FileType => push_str(&mut message, "failed to read file type: "),
        }
        push_str(&mut message, detail);
        self.warn(Some(path), message)
    }

    fn warn(&mut self, path: Option<FsPath>, message: String) -> (r: ScanEvent)
        requires
            old(self).wf(),
        ensures
            final(self).wf(),
            final(self).warnings@.len() == old(self).warnings@.len() + 1,
            final(self).noticed() == old(self).noticed().push(
                warning_view(ScanWarning { path, message }),
            ),
            r matches ScanEvent::Warning(w) && warning_view(w) == warning_view(
                ScanWarning { path, message },
            ),
            final(self).roots == old(self).roots,
            final(self).next_root == old(self).next_root,
            final(self).queue == old(self).queue,
            final(self).head == old(self).head,
            final(self).root == old(self).root,
            final(self).items == old(self).items,
            final(self).scanned_dirs == old(self).scanned_dirs,
            final(self).examining == old(self).examining,
            final(self).matched == old(self).matched,
            final(self).descending == old(self).descending,
            final(self).match_exam == old(self).match_exam,
            final(self).findings == old(self).findings,
            final(self).trace == old(self).trace,
    {
        let warning = ScanWarning { path, message };
        let copy = warning.duplicate();
        let ghost before = self.warnings@;
        self.warnings.push(warning);
        assert(warning_views(self.warnings@) =~= warning_views(before).push(warning_view(copy)));
        ScanEvent::Warning(copy)
    }

    /// What the walk found. Each item was found as its finding says (see
    /// `found_by`), from a directory reached from its root, and every
    /// recorded descent is faithful (see `lemma_ancestors_descended`).
    pub fn finish(self) -> (r: DiscoveryOutput)
        requires
            self.wf(),
        ensures
            r.items@ == self.found(),
            warning_views(r.warnings@) == self.noticed(),
            r.scanned_dirs == self.scanned(),
            self.findings().len() == r.items@.len(),
            forall|k: int|
                0 <= k < r.items@.len() ==> found_by(r.items@[k], #[trigger] self.findings()[k])
                    && reached(
                    self.findings()[k].exam.root,
                    self.findings()[k].exam.dir,
                    self.trace(),
                ),
            descents_ok(self.trace()),
    {
        DiscoveryOutput { items: self.items, warnings: self.warnings, scanned_dirs: self.scanned_dirs }
    }
}

} // verus!
