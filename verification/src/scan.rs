//! Turning what a walk found into a scan report.
use vstd::prelude::*;

use crate::config::Config;
use crate::domain::{
    kind_size, kinds_of, lemma_kind_size_prefix, saturating_size, ArtifactKind, ScanItem, ScanReport, ScanTotals,
    ScanWarning,
};
use crate::rules::{rules_from_config, RuleSet};

verus! {

/// Whether each kind's sum of sizes fits in a `u64`.
pub open spec fn kinds_fit(items: Seq<ScanItem>) -> bool {
    forall|k: ArtifactKind| kind_size(items, k) <= u64::MAX
}

/// Whether the sizes of each kind among `items` add up within `u64`; a
/// report is only made of items for which they do.
pub fn kind_sums_fit(items: &Vec<ScanItem>) -> (r: bool)
    ensures
        r == kinds_fit(items@),
{
    let n = items.len();
    let mut sums: [u64; 3] = [0, 0, 0];
    let mut i: usize = 0;
    while i < n
        invariant
            n == items@.len(),
            i <= n,
            sums@.len() == 3,
            sums@[0] == kind_size(items@.take(i as int), ArtifactKind::Cache),
            sums@[1] == kind_size(items@.take(i as int), ArtifactKind::Dependency),
            sums@[2] == kind_size(items@.take(i as int), ArtifactKind::Build),
        decreases n - i,
    {
        let ghost pre = items@.take(i as int);
        let ghost post = items@.take(i + 1);
        assert(post.drop_last() =~= pre);
        let item = &items[i];
        let b: u64 = match item.bytes {
            Some(x) => x,
            None => 0,
        };
        let slot: usize = match item.kind {
            ArtifactKind::Cache => 0,
            ArtifactKind::Dependency => 1,
            ArtifactKind::Build => 2,
        };
        match sums[slot].checked_add(b) {
            Some(s) => {
                sums.set(slot, s);
            },
            None => {
                proof {
                    lemma_kind_size_prefix(items@, item.kind, i + 1);
                }
                return false;
            },
        }
        i = i + 1;
    }
    assert(items@.take(n as int) =~= items@);
    true
}

/// Scans directories with the rules of a configuration.
#[derive(Clone, Debug)]
pub struct ScanService {
    rules: RuleSet,
}

impl ScanService {
    /// A service with the rules of `config`.
    pub fn from_config(config: Config) -> (r: ScanService)
        ensures
            r.rule_set()@.rules == rules_from_config(config),
    {
        ScanService { rules: RuleSet::from_config(&config) }
    }

    /// A service with `rules`.
    pub fn new(rules: RuleSet) -> (r: ScanService)
        ensures
            r.rule_set() == rules,
    {
        ScanService { rules }
    }

    /// The rules of the service.
    pub closed spec fn rule_set(&self) -> RuleSet {
        self.rules
    }

    /// The rules of the service.
    pub fn rules(&self) -> (r: &RuleSet)
        ensures
            *r == self.rule_set(),
    {
        &self.rules
    }

    /// The report of a scan that found and measured `items`: the items with
    /// their counts (the byte total stops at `u64::MAX`), the walk's
    /// warnings, the time taken and whether it was cancelled.
    pub fn report(
        &self,
        items: Vec<ScanItem>,
        warnings: Vec<ScanWarning>,
        duration_ms: u64,
        cancelled: bool,
    ) -> (r: ScanReport)
        requires
            kinds_fit(items@),
        ensures
            r.items@ == items@,
            r.totals.items == items@.len(),
            r.totals.bytes == saturating_size(items@),
            kinds_of(r.totals.by_kind, items@),
            r.warnings@ == warnings@,
            r.duration_ms == duration_ms,
            r.cancelled == cancelled,
    {
        let totals = ScanTotals::saturating_of_items(&items);
        ScanReport {
            items,
            totals,
            warnings,
            duration_ms,
            cancelled,
        }
    }
}

} // verus!
