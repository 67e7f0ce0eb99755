//! The values that scanning and deleting pass around.
use vstd::prelude::*;
use vstd::string::*;

use crate::error::RepoSweepError;
use crate::fspath::{string_views, FsPath};
use crate::text::{decimal, digit_char, digit_to_char, owned, push_char, push_decimal, push_str};

verus! {

/// What kind of disposable directory a rule finds.
#[derive(Clone, Copy, Debug, PartialEq, Eq, Structural, PartialOrd, Ord, Hash)]
pub enum ArtifactKind {
    Cache,
    Dependency,
    Build,
}

impl Default for ArtifactKind {
    fn default() -> (r: Self)
        ensures
            r == ArtifactKind::Build,
    {
        ArtifactKind::Build
    }
}

impl ArtifactKind {
    /// The lowercase name of the kind, as it is shown and written in config.
    pub fn label(&self) -> (r: &'static str)
        ensures
            r@ == kind_label(*self),
    {
        match self {
            ArtifactKind::Cache => "cache",
            ArtifactKind::Dependency => "dependency",
            ArtifactKind::Build => "build",
        }
    }
}

/// The name of a kind.
pub open spec fn kind_label(k: ArtifactKind) -> Seq<char> {
    match k {
        ArtifactKind::Cache => "cache"@,
        ArtifactKind::Dependency => "dependency"@,
        ArtifactKind::Build => "build"@,
    }
}

/// Which kinds of directories a scan reports.
#[derive(Clone, Copy, Debug, PartialEq, Eq, Structural)]
pub enum ScanScope {
    Cache,
    Dependencies,
    All,
}

impl Default for ScanScope {
    fn default() -> (r: Self)
        ensures
            r == ScanScope::All,
    {
        ScanScope::All
    }
}

/// Whether a scope reports directories of a kind: caches and builds for
/// `Cache`, dependencies for `Dependencies`, everything for `All`.
pub open spec fn scope_includes(scope: ScanScope, kind: ArtifactKind) -> bool {
    match scope {
        ScanScope::All => true,
        ScanScope::Cache => kind == ArtifactKind::Cache || kind == ArtifactKind::Build,
        ScanScope::Dependencies => kind == ArtifactKind::Dependency,
    }
}

impl ScanScope {
    /// Whether this scope reports directories of `kind`.
    pub fn includes(self, kind: ArtifactKind) -> (r: bool)
        ensures
            r == scope_includes(self, kind),
    {
        match self {
            ScanScope::All => true,
            ScanScope::Cache => kind == ArtifactKind::Cache || kind == ArtifactKind::Build,
            ScanScope::Dependencies => kind == ArtifactKind::Dependency,
        }
    }

    /// The lowercase name of the scope.
    pub fn label(&self) -> (r: &'static str)
        ensures
            r@ == match *self {
                ScanScope::Cache => "cache"@,
                ScanScope::Dependencies => "dependencies"@,
                ScanScope::All => "all"@,
            },
    {
        match self {
            ScanScope::Cache => "cache",
            ScanScope::Dependencies => "dependencies",
            ScanScope::All => "all",
        }
    }
}

/// How protected paths are treated; there is one policy, which follows the
/// configuration.
#[derive(Clone, Copy, Debug, PartialEq, Eq, Structural)]
pub enum ProtectionPolicy {
    RespectConfig,
}

impl Default for ProtectionPolicy {
    fn default() -> (r: Self)
        ensures
            r == ProtectionPolicy::RespectConfig,
    {
        ProtectionPolicy::RespectConfig
    }
}

/// Whether matched directories are measured.
#[derive(Clone, Copy, Debug, PartialEq, Eq, Structural)]
pub enum SizeMode {
    Skip,
    Accurate,
}

impl Default for SizeMode {
    fn default() -> (r: Self)
        ensures
            r == SizeMode::Accurate,
    {
        SizeMode::Accurate
    }
}

/// What to scan and how. `age_filter` is a minimum age in seconds.
pub struct ScanRequest {
    pub roots: Vec<FsPath>,
    pub scope: ScanScope,
    pub age_filter: Option<u64>,
    pub protection_policy: ProtectionPolicy,
    pub size_mode: SizeMode,
}

impl ScanRequest {
    /// Accepts a request with at least one root; refuses one without.
    pub fn validate(&self) -> (r: Result<(), RepoSweepError>)
        ensures
            self.roots@.len() > 0 <==> r is Ok,
            r matches Err(e) ==> e matches RepoSweepError::InvalidRequest(m) && m@
                == "at least one root is required"@,
    {
        if self.roots.len() == 0 {
            return Err(RepoSweepError::InvalidRequest(owned("at least one root is required")));
        }
        Ok(())
    }
}

/// A directory that a scan found. `last_modified` is in seconds since the
/// Unix epoch.
#[derive(Clone, Debug)]
pub struct ScanItem {
    pub path: FsPath,
    pub kind: ArtifactKind,
    pub ecosystem: String,
    pub rule_name: String,
    pub bytes: Option<u64>,
    pub last_modified: Option<u64>,
    pub project_root: Option<FsPath>,
    pub notes: Vec<String>,
}

/// The plain value of a scan item.
pub struct ScanItemView {
    pub path: Seq<Seq<char>>,
    pub kind: ArtifactKind,
    pub ecosystem: Seq<char>,
    pub rule_name: Seq<char>,
    pub bytes: Option<u64>,
    pub last_modified: Option<u64>,
    pub project_root: Option<Seq<Seq<char>>>,
    pub notes: Seq<Seq<char>>,
}

impl View for ScanItem {
    type V = ScanItemView;

    open spec fn view(&self) -> ScanItemView {
        ScanItemView {
            path: self.path@,
            kind: self.kind,
            ecosystem: self.ecosystem@,
            rule_name: self.rule_name@,
            bytes: self.bytes,
            last_modified: self.last_modified,
            project_root: match self.project_root {
                Some(p) => Some(p@),
                None => None,
            },
            notes: string_views(self.notes@),
        }
    }
}

/// The views of a sequence of items.
pub open spec fn item_views(items: Seq<ScanItem>) -> Seq<ScanItemView> {
    items.map_values(|i: ScanItem| i@)
}

impl ScanItem {
    /// A copy of this item.
    pub fn duplicate(&self) -> (r: ScanItem)
        ensures
            r@ == self@,
    {
        let notes = self.notes.clone();
        assert(string_views(notes@) =~= string_views(self.notes@));
        ScanItem {
            path: self.path.duplicate(),
            kind: self.kind,
            ecosystem: self.ecosystem.clone(),
            rule_name: self.rule_name.clone(),
            bytes: self.bytes,
            last_modified: self.last_modified,
            project_root: match &self.project_root {
                Some(p) => Some(p.duplicate()),
                None => None,
            },
            notes,
        }
    }
}

/// Bytes per kind; a kind has an entry once an item of that kind was counted.
#[derive(Clone, Copy, Debug, Default)]
pub struct KindTotals {
    pub cache: Option<u64>,
    pub dependency: Option<u64>,
    pub build: Option<u64>,
}

impl KindTotals {
    /// The entry of a kind.
    pub open spec fn entry(self, kind: ArtifactKind) -> Option<u64> {
        match kind {
            ArtifactKind::Cache => self.cache,
            ArtifactKind::Dependency => self.dependency,
            ArtifactKind::Build => self.build,
        }
    }

    /// No entries.
    pub fn new() -> (r: KindTotals)
        ensures
            forall|k: ArtifactKind| r.entry(k) is None,
    {
        KindTotals { cache: None, dependency: None, build: None }
    }

    /// The entry of a kind.
    pub fn get(&self, kind: ArtifactKind) -> (r: Option<u64>)
        ensures
            r == self.entry(kind),
    {
        match kind {
            ArtifactKind::Cache => self.cache,
            ArtifactKind::Dependency => self.dependency,
            ArtifactKind::Build => self.build,
        }
    }

    /// Adds `bytes` to the entry of `kind`, creating it at zero first.
    pub fn add(&mut self, kind: ArtifactKind, bytes: u64)
        requires
            match old(self).entry(kind) {
                Some(b) => b + bytes <= u64::MAX,
                None => true,
            },
        ensures
            final(self).entry(kind) == Some(
                (match old(self).entry(kind) {
                    Some(b) => b + bytes,
                    None => bytes as int,
                }) as u64,
            ),
            forall|k: ArtifactKind| k != kind ==> final(self).entry(k) == old(self).entry(k),
    {
        match kind {
            ArtifactKind::Cache => {
                self.cache = Some(
                    match self.cache {
                        Some(b) => b + bytes,
                        None => bytes,
                    },
                );
            },
            ArtifactKind::Dependency => {
                self.dependency = Some(
                    match self.dependency {
                        Some(b) => b + bytes,
                        None => bytes,
                    },
                );
            },
            ArtifactKind::Build => {
                self.build = Some(
                    match self.build {
                        Some(b) => b + bytes,
                        None => bytes,
                    },
                );
            },
        }
    }
}

/// Counts over the items of a report.
#[derive(Clone, Debug, Default)]
pub struct ScanTotals {
    pub items: usize,
    pub bytes: u64,
    pub by_kind: KindTotals,
}

/// The size of an item, zero when it was not measured.
pub open spec fn size_of(item: ScanItem) -> nat {
    match item.bytes {
        Some(b) => b as nat,
        None => 0,
    }
}

/// The sum of the sizes of the items.
pub open spec fn total_size(items: Seq<ScanItem>) -> nat
    decreases items.len(),
{
    if items.len() == 0 {
        0
    } else {
        total_size(items.drop_last()) + size_of(items.last())
    }
}

/// The sum of the sizes of the items of one kind.
pub open spec fn kind_size(items: Seq<ScanItem>, kind: ArtifactKind) -> nat
    decreases items.len(),
{
    if items.len() == 0 {
        0
    } else {
        kind_size(items.drop_last(), kind) + if items.last().kind == kind {
            size_of(items.last())
        } else {
            0
        }
    }
}

/// Whether some item is of `kind`.
pub open spec fn has_kind(items: Seq<ScanItem>, kind: ArtifactKind) -> bool {
    exists|i: int| 0 <= i < items.len() && #[trigger] items[i].kind == kind
}

/// The sum of the sizes, where each addition stops at `u64::MAX`.
pub open spec fn saturating_size(items: Seq<ScanItem>) -> nat
    decreases items.len(),
{
    if items.len() == 0 {
        0
    } else {
        let s = saturating_size(items.drop_last()) + size_of(items.last());
        if s > u64::MAX {
            u64::MAX as nat
        } else {
            s
        }
    }
}

/// Whether the entries per kind are those of `items`: an entry for each kind
/// that occurs, holding the sum of its sizes.
pub open spec fn kinds_of(t: KindTotals, items: Seq<ScanItem>) -> bool {
    forall|k: ArtifactKind|
        #[trigger] t.entry(k) == if has_kind(items, k) {
            Some(kind_size(items, k) as u64)
        } else {
            None
        }
}

/// A kind's sum never exceeds the whole sum.
pub proof fn lemma_kind_size_le_total(items: Seq<ScanItem>, kind: ArtifactKind)
    ensures
        kind_size(items, kind) <= total_size(items),
    decreases items.len(),
{
    if items.len() > 0 {
        lemma_kind_size_le_total(items.drop_last(), kind);
    }
}

/// A kind's sum only grows along the items.
pub proof fn lemma_kind_size_prefix(items: Seq<ScanItem>, kind: ArtifactKind, i: int)
    requires
        0 <= i <= items.len(),
    ensures
        kind_size(items.take(i), kind) <= kind_size(items, kind),
    decreases items.len() - i,
{
    if i < items.len() {
        lemma_kind_size_prefix(items, kind, i + 1);
        assert(items.take(i + 1).drop_last() =~= items.take(i));
    } else {
        assert(items.take(i) =~= items);
    }
}

/// Whether the sizes of `items` add up within a `u64`, so that their
/// totals can be counted exactly.
pub fn total_size_fits(items: &Vec<ScanItem>) -> (r: bool)
    ensures
        r == (total_size(items@) <= u64::MAX),
{
    let n = items.len();
    let mut total: u64 = 0;
    let mut i: usize = 0;
    while i < n
        invariant
            n == items@.len(),
            i <= n,
            total == total_size(items@.take(i as int)),
        decreases n - i,
    {
        assert(items@.take(i + 1).drop_last() =~= items@.take(i as int));
        let b: u64 = match items[i].bytes {
            Some(x) => x,
            None => 0,
        };
        match total.checked_add(b) {
            Some(t) => {
                total = t;
            },
            None => {
                proof {
                    lemma_total_size_prefix(items@, i + 1);
                }
                return false;
            },
        }
        i = i + 1;
    }
    assert(items@.take(n as int) =~= items@);
    true
}

/// The counts of `items`, added up exactly.
pub fn recalculate_totals(items: &Vec<ScanItem>) -> (r: ScanTotals)
    requires
        total_size(items@) <= u64::MAX,
    ensures
        r.items == items@.len(),
        r.bytes == total_size(items@),
        kinds_of(r.by_kind, items@),
{
    let n = items.len();
    let mut bytes: u64 = 0;
    let mut by_kind = KindTotals::new();
    let mut i: usize = 0;
    while i < n
        invariant
            n == items@.len(),
            i <= n,
            total_size(items@) <= u64::MAX,
            bytes == total_size(items@.take(i as int)),
            kinds_of(by_kind, items@.take(i as int)),
        decreases n - i,
    {
        let ghost pre = items@.take(i as int);
        let ghost post = items@.take(i + 1);
        assert(post.drop_last() =~= pre);
        let item = &items[i];
        let b: u64 = match item.bytes {
            Some(x) => x,
            None => 0,
        };
        proof {
            lemma_total_size_prefix(items@, i + 1);
            lemma_kind_size_le_total(post, item.kind);
            lemma_kind_size_le_total(pre, item.kind);
        }
        bytes = bytes + b;
        let ghost old_kinds = by_kind;
        assert(old_kinds.entry(item.kind) == if has_kind(pre, item.kind) {
            Some(kind_size(pre, item.kind) as u64)
        } else {
            None
        });
        proof {
            lemma_kind_size_absent(pre, item.kind);
        }
        by_kind.add(item.kind, b);
        proof {
            assert forall|k: ArtifactKind| #[trigger] by_kind.entry(k) == if has_kind(post, k) {
                Some(kind_size(post, k) as u64)
            } else {
                None
            } by {
                if k == item.kind {
                    assert(post[i as int].kind == k);
                } else {
                    if has_kind(post, k) {
                        let j = choose|j: int| 0 <= j < post.len() && #[trigger] post[j].kind == k;
                        assert(pre[j].kind == k);
                    }
                    if has_kind(pre, k) {
                        let j = choose|j: int| 0 <= j < pre.len() && #[trigger] pre[j].kind == k;
                        assert(post[j].kind == k);
                    }
                }
            }
        }
        i = i + 1;
    }
    assert(items@.take(n as int) =~= items@);
    ScanTotals { items: n, bytes, by_kind }
}

impl ScanTotals {
    /// The counts of `items`, where the total stops at `u64::MAX`; each
    /// kind's sum is added exactly.
    pub fn saturating_of_items(items: &Vec<ScanItem>) -> (r: ScanTotals)
        requires
            forall|k: ArtifactKind| kind_size(items@, k) <= u64::MAX,
        ensures
            r.items == items@.len(),
            r.bytes == saturating_size(items@),
            kinds_of(r.by_kind, items@),
    {
        let n = items.len();
        let mut bytes: u64 = 0;
        let mut by_kind = KindTotals::new();
        let mut i: usize = 0;
        while i < n
            invariant
                n == items@.len(),
                i <= n,
                forall|k: ArtifactKind| kind_size(items@, k) <= u64::MAX,
                bytes == saturating_size(items@.take(i as int)),
                kinds_of(by_kind, items@.take(i as int)),
            decreases n - i,
        {
            let ghost pre = items@.take(i as int);
            let ghost post = items@.take(i + 1);
            assert(post.drop_last() =~= pre);
            let item = &items[i];
            let b: u64 = match item.bytes {
                Some(x) => x,
                None => 0,
            };
            proof {
                lemma_kind_size_prefix(items@, item.kind, i + 1);
            }
            bytes = bytes.saturating_add(b);
            let ghost old_kinds = by_kind;
            assert(old_kinds.entry(item.kind) == if has_kind(pre, item.kind) {
                Some(kind_size(pre, item.kind) as u64)
            } else {
                None
            });
            proof {
                lemma_kind_size_absent(pre, item.kind);
                lemma_kind_size_prefix(items@, item.kind, i + 1);
            }
            by_kind.add(item.kind, b);
            proof {
                assert forall|k: ArtifactKind| #[trigger] by_kind.entry(k) == if has_kind(post, k) {
                    Some(kind_size(post, k) as u64)
                } else {
                    None
                } by {
                    if k == item.kind {
                        assert(post[i as int].kind == k);
                    } else {
                        if has_kind(post, k) {
                            let j = choose|j: int| 0 <= j < post.len() && #[trigger] post[j].kind == k;
                            assert(pre[j].kind == k);
                        }
                        if has_kind(pre, k) {
                            let j = choose|j: int| 0 <= j < pre.len() && #[trigger] pre[j].kind == k;
                            assert(post[j].kind == k);
                        }
                    }
                }
            }
            i = i + 1;
        }
        assert(items@.take(n as int) =~= items@);
        ScanTotals { items: n, bytes, by_kind }
    }
}

/// A kind that does not occur sums to zero.
proof fn lemma_kind_size_absent(items: Seq<ScanItem>, kind: ArtifactKind)
    ensures
        !has_kind(items, kind) ==> kind_size(items, kind) == 0,
    decreases items.len(),
{
    if items.len() > 0 && !has_kind(items, kind) {
        assert(items.last().kind != kind) by {
            assert(items[items.len() - 1].kind == items.last().kind);
        }
        assert(!has_kind(items.drop_last(), kind)) by {
            if has_kind(items.drop_last(), kind) {
                let j = choose|j: int| 0 <= j < items.drop_last().len() && #[trigger] items.drop_last()[j].kind == kind;
                assert(items[j].kind == kind);
            }
        }
        lemma_kind_size_absent(items.drop_last(), kind);
    }
}

/// The sum of the first `i` items never exceeds the whole sum.
proof fn lemma_total_size_prefix(items: Seq<ScanItem>, i: int)
    requires
        0 <= i <= items.len(),
    ensures
        total_size(items.take(i)) <= total_size(items),
    decreases items.len() - i,
{
    if i < items.len() {
        lemma_total_size_prefix(items, i + 1);
        assert(items.take(i + 1).drop_last() =~= items.take(i));
    } else {
        assert(items.take(i) =~= items);
    }
}

/// Something that a scan noticed but could not, or would not, descend into.
#[derive(Clone, Debug)]
pub struct ScanWarning {
    pub path: Option<FsPath>,
    pub message: String,
}

/// The outcome of a scan. `duration_ms` is the wall time it took.
pub struct ScanReport {
    pub items: Vec<ScanItem>,
    pub totals: ScanTotals,
    pub warnings: Vec<ScanWarning>,
    pub duration_ms: u64,
    pub cancelled: bool,
}

/// Progress notices that a scan sends while it runs.
#[derive(Clone, Debug)]
pub enum ScanEvent {
    Started { roots: Vec<FsPath> },
    EnteredPath { path: FsPath },
    MatchFound { path: FsPath, kind: ArtifactKind, rule_name: String },
    Sized { path: FsPath, bytes: u64 },
    Warning(ScanWarning),
    Finished { cancelled: bool, scanned_dirs: usize, matched_items: usize },
}

/// How matched directories are removed.
#[derive(Clone, Copy, Debug, PartialEq, Eq, Structural)]
pub enum DeleteStrategy {
    Trash,
    Permanent,
}

impl Default for DeleteStrategy {
    fn default() -> (r: Self)
        ensures
            r == DeleteStrategy::Trash,
    {
        DeleteStrategy::Trash
    }
}

/// The name of a strategy.
pub open spec fn strategy_label(s: DeleteStrategy) -> Seq<char> {
    match s {
        DeleteStrategy::Trash => "trash"@,
        DeleteStrategy::Permanent => "permanent"@,
    }
}

impl DeleteStrategy {
    /// The lowercase name of the strategy.
    pub fn label(&self) -> (r: &'static str)
        ensures
            r@ == strategy_label(*self),
    {
        match self {
            DeleteStrategy::Trash => "trash",
            DeleteStrategy::Permanent => "permanent",
        }
    }
}

/// Items to remove, and how.
pub struct DeleteRequest {
    pub items: Vec<ScanItem>,
    pub strategy: DeleteStrategy,
}

/// A path that could not be removed, with the reason.
#[derive(Clone, Debug)]
pub struct DeleteFailure {
    pub path: FsPath,
    pub message: String,
}

/// What a deletion achieved.
#[derive(Clone, Debug, Default)]
pub struct DeleteResult {
    pub deleted: Vec<FsPath>,
    pub failed: Vec<DeleteFailure>,
    pub reclaimed_bytes: u64,
}

/// The views of a sequence of paths.
pub open spec fn path_views(paths: Seq<FsPath>) -> Seq<Seq<Seq<char>>> {
    paths.map_values(|p: FsPath| p@)
}

/// A flag that one side sets to ask running work to stop early; every clone
/// shares the same flag.
#[derive(Clone, Debug)]
pub struct CancellationToken {
    cancelled: std::sync::Arc<std::sync::atomic::AtomicBool>,
}

impl CancellationToken {
    /// A token that is not cancelled.
    pub fn new() -> Self {
        CancellationToken {
            cancelled: std::sync::Arc::new(std::sync::atomic::AtomicBool::new(false)),
        }
    }

    /// Asks everything holding this token, or a clone of it, to stop.
    pub fn cancel(&self) {
        self.cancelled.store(true, std::sync::atomic::Ordering::SeqCst);
    }

    /// Whether the token was cancelled. Another thread may cancel it at any
    /// time, so nothing is stated of the answer.
    pub fn is_cancelled(&self) -> bool {
        self.cancelled.load(std::sync::atomic::Ordering::SeqCst)
    }
}

/// The unit names, from bytes up to terabytes.
pub open spec fn unit_name(u: nat) -> Seq<char> {
    if u == 0 {
        "B"@
    } else if u == 1 {
        "KB"@
    } else if u == 2 {
        "MB"@
    } else if u == 3 {
        "GB"@
    } else {
        "TB"@
    }
}

/// `1024` to the power `u`.
pub open spec fn unit_scale(u: nat) -> nat
    decreases u,
{
    if u == 0 {
        1
    } else {
        1024 * unit_scale((u - 1) as nat)
    }
}

/// The largest unit, up to terabytes, of which `b` holds at least one.
pub open spec fn unit_of(b: nat) -> nat {
    if b >= unit_scale(4) {
        4
    } else if b >= unit_scale(3) {
        3
    } else if b >= unit_scale(2) {
        2
    } else if b >= unit_scale(1) {
        1
    } else {
        0
    }
}

/// How many times `b` must be halved to fit in the 53 bits of a double's
/// significand.
pub open spec fn f64_halvings(b: nat) -> nat
    decreases b,
{
    if b < 0x20_0000_0000_0000 {
        0
    } else {
        1 + f64_halvings(b / 2)
    }
}

/// `2` to the power `n`.
pub open spec fn pow2(n: nat) -> nat
    decreases n,
{
    if n == 0 {
        1
    } else {
        2 * pow2((n - 1) as nat)
    }
}

/// `n / d` rounded to the nearest integer, ties to the even one.
pub open spec fn div_round_even(n: nat, d: nat) -> nat {
    let q = n / d;
    let r = n % d;
    if 2 * r > d || (2 * r == d && q % 2 == 1) {
        q + 1
    } else {
        q
    }
}

/// The value of `b as f64`: `b` rounded to 53 significant bits, ties to even.
pub open spec fn f64_value(b: nat) -> nat {
    let d = pow2(f64_halvings(b));
    div_round_even(b, d) * d
}

/// What `format_bytes` writes: whole bytes below a kilobyte, otherwise the
/// size in the largest unit (up to terabytes) with one decimal, rounded as
/// the floating-point value that the size converts to is rounded, ties to
/// even.
pub open spec fn format_bytes_spec(b: nat) -> Seq<char> {
    let u = unit_of(b);
    if u == 0 {
        decimal(b) + " B"@
    } else {
        let tenths = div_round_even(f64_value(b) * 10, unit_scale(u));
        decimal(tenths / 10) + seq!['.', digit_char(tenths % 10)] + seq![' '] + unit_name(u)
    }
}

proof fn lemma_pow2_facts(n: nat)
    ensures
        pow2(n) >= 1,
        n <= 11 ==> pow2(n) <= 2048,
{
    lemma_pow2_le(0, n);
    if n <= 11 {
        lemma_pow2_le(n, 11);
        reveal_with_fuel(pow2, 12);
    }
}

proof fn lemma_pow2_le(n: nat, m: nat)
    requires
        n <= m,
    ensures
        pow2(n) <= pow2(m),
    decreases m,
{
    if m > n {
        lemma_pow2_le(n, (m - 1) as nat);
    }
}

proof fn lemma_halvings_bound(b: nat, k: nat)
    requires
        b < 0x20_0000_0000_0000 * pow2(k),
    ensures
        f64_halvings(b) <= k,
    decreases k,
{
    if b >= 0x20_0000_0000_0000 {
        assert(k > 0);
        assert(pow2(k) == 2 * pow2((k - 1) as nat));
        lemma_halvings_bound(b / 2, (k - 1) as nat);
    }
}

proof fn lemma_halvings_fit(b: nat)
    ensures
        b / pow2(f64_halvings(b)) < 0x20_0000_0000_0000,
    decreases b,
{
    if b >= 0x20_0000_0000_0000 {
        lemma_halvings_fit(b / 2);
        lemma_pow2_facts(f64_halvings(b / 2));
        lemma_div_twice(b, pow2(f64_halvings(b / 2)));
    }
}

proof fn lemma_halvings_small(b: nat)
    requires
        b < 0x1_0000_0000_0000_0000,
    ensures
        f64_halvings(b) <= 11,
        b / pow2(f64_halvings(b)) < 0x20_0000_0000_0000,
{
    reveal_with_fuel(pow2, 12);
    assert(pow2(11) == 2048);
    lemma_halvings_bound(b, 11);
    lemma_halvings_fit(b);
}

proof fn lemma_div_twice(b: nat, d: nat)
    requires
        d >= 1,
    ensures
        (b / 2) / d == b / (2 * d),
{
    vstd::arithmetic::div_mod::lemma_div_denominator(b as int, 2, d as int);
}

/// Writes a byte count for people: `512 B`, `1.5 KB`, `2.0 GB`.
pub fn format_bytes(bytes: u64) -> (r: String)
    ensures
        r@ == format_bytes_spec(bytes as nat),
{
    let mut unit: u64 = 0;
    let mut scale: u64 = 1;
    proof {
        reveal_with_fuel(unit_scale, 5);
    }
    assert(unit_scale(0) == 1);
    while unit < 4 && bytes / scale >= 1024
        invariant
            unit <= 4,
            scale as nat == unit_scale(unit as nat),
            unit < 4 ==> scale <= 0x40_0000_0000,
            forall|k: nat| 1 <= k <= unit ==> bytes as nat >= unit_scale(k),
            unit_scale(1) == 1024,
            unit_scale(2) == 1024 * 1024,
            unit_scale(3) == 1024 * 1024 * 1024,
            unit_scale(4) == 1024 * 1024 * 1024 * 1024,
        decreases 4 - unit,
    {
        assert(unit_scale((unit + 1) as nat) == 1024 * unit_scale(unit as nat));
        assert(bytes as nat >= 1024 * scale) by (nonlinear_arith)
            requires
                bytes / scale >= 1024,
                scale >= 1,
        ;
        scale = scale * 1024;
        unit = unit + 1;
    }
    proof {
        assert(unit_scale(1) == 1024);
        assert(unit_scale(2) == 1024 * 1024);
        assert(unit_scale(3) == 1024 * 1024 * 1024);
        assert(unit_scale(4) == 1024 * 1024 * 1024 * 1024);
        if unit < 4 {
            assert((bytes as nat) < 1024 * (scale as nat)) by (nonlinear_arith)
                requires
                    bytes / scale < 1024,
                    scale >= 1,
            ;
        }
        assert(unit as nat == unit_of(bytes as nat));
    }
    let mut out = String::new();
    if unit == 0 {
        push_decimal(&mut out, bytes);
        push_str(&mut out, " B");
        return out;
    }
    let value = f64_value_of(bytes);
    let scaled: u128 = value * 10;
    let tenths: u128 = round_even(scaled, scale as u128);
    assert(tenths / 10 <= u64::MAX) by (nonlinear_arith)
        requires
            tenths <= scaled / (scale as u128) + 1,
            scaled <= 0x1_0000_0000_0000_0000 * 10,
            scale >= 1024,
    ;
    let whole: u64 = (tenths / 10) as u64;
    let digit: u64 = (tenths % 10) as u64;
    push_decimal(&mut out, whole);
    push_char(&mut out, '.');
    push_char(&mut out, digit_to_char(digit));
    push_char(&mut out, ' ');
    push_str(&mut out, unit_label(unit));
    assert(out@ =~= format_bytes_spec(bytes as nat));
    out
}

fn unit_label(u: u64) -> (r: &'static str)
    requires
        1 <= u <= 4,
    ensures
        r@ == unit_name(u as nat),
{
    if u == 1 {
        "KB"
    } else if u == 2 {
        "MB"
    } else if u == 3 {
        "GB"
    } else {
        "TB"
    }
}

fn round_even(n: u128, d: u128) -> (r: u128)
    requires
        d >= 1,
    ensures
        r == div_round_even(n as nat, d as nat),
        r <= n / d + 1,
{
    let q = n / d;
    let rem = n % d;
    assert(q <= n) by (nonlinear_arith)
        requires
            d >= 1,
            q == n / d,
    ;
    if (rem > d - rem) || (rem == d - rem && q % 2 == 1) {
        assert(q < n) by (nonlinear_arith)
            requires
                d >= 1,
                q == n / d,
                rem == n % d,
                rem > 0,
        ;
        q + 1
    } else {
        q
    }
}

fn f64_value_of(b: u64) -> (r: u128)
    ensures
        r as nat == f64_value(b as nat),
        r <= 0x1_0000_0000_0000_0000,
{
    let mut d: u128 = 1;
    let mut k: u64 = 0;
    proof {
        lemma_halvings_small(b as nat);
    }
    while (b as u128) / d >= 0x20_0000_0000_0000
        invariant
            d as nat == pow2(k as nat),
            k <= 11,
            f64_halvings(b as nat) == k + f64_halvings((b as nat) / (d as nat)),
            f64_halvings(b as nat) <= 11,
            d >= 1,
        decreases 11 - k,
    {
        proof {
            vstd::arithmetic::div_mod::lemma_div_denominator(b as int, d as int, 2);
            lemma_pow2_facts(k as nat);
            assert(f64_halvings((b as nat) / (d as nat)) == 1 + f64_halvings(((b as nat) / (d as nat)) / 2));
        }
        d = d * 2;
        k = k + 1;
    }
    proof {
        lemma_pow2_facts(k as nat);
        assert(f64_halvings((b as nat) / (d as nat)) == 0);
    }
    let q = round_even(b as u128, d);
    assert(q * d <= 0x1_0000_0000_0000_0000) by (nonlinear_arith)
        requires
            q <= 0x20_0000_0000_0000,
            d <= 2048,
    ;
    q * d
}

} // verus!
