//! The results screen: which scan items are shown, in what order, which are
//! marked, and what a deletion does to them.
use vstd::prelude::*;
use vstd::string::*;
use vstd::std_specs::iter::IteratorSpec;

use crate::domain::{
    format_bytes, format_bytes_spec, item_views, kinds_of, path_views, recalculate_totals,
    size_of, strategy_label, total_size, ArtifactKind, DeleteResult, DeleteStrategy, ScanItem,
    ScanItemView, ScanReport,
};
use crate::fspath::{lemma_path_lt_asymmetric, lemma_path_lt_irreflexive, lemma_path_lt_total,
    lemma_path_lt_transitive, path_lt, FsPath};
use crate::text::{decimal, push_decimal, push_str};

verus! {

/// The order in which results are listed.
#[derive(Clone, Copy, Debug, PartialEq, Eq, Structural)]
pub enum SortMode {
    LargestFirst,
    PathAscending,
}

/// Which results are listed.
#[derive(Clone, Copy, Debug, PartialEq, Eq, Structural)]
pub enum FilterMode {
    All,
    CacheAndBuild,
    Dependencies,
}

/// A deletion waiting for the user's confirmation.
#[derive(Clone, Debug)]
pub struct PendingDelete {
    pub strategy: DeleteStrategy,
    pub item_indices: Vec<usize>,
    pub total_bytes: u64,
}

/// The results of a scan as the user works through them. `checked` holds
/// indices into `report.items`; `selected_visible` is a position in the
/// listed order.
pub struct ResultsState {
    pub report: ScanReport,
    pub checked: IndexSet,
    pub selected_visible: usize,
    pub sort: SortMode,
    pub filter: FilterMode,
    pub pending_delete: Option<PendingDelete>,
}

/// Whether an item of `kind` is listed under `filter`.
pub open spec fn passes_filter(filter: FilterMode, kind: ArtifactKind) -> bool {
    match filter {
        FilterMode::All => true,
        FilterMode::CacheAndBuild => kind != ArtifactKind::Dependency,
        FilterMode::Dependencies => kind == ArtifactKind::Dependency,
    }
}

/// Whether item `a` is listed before item `b`: the larger first (then by
/// path) or by path alone, and by position among equal keys, as a stable
/// sort leaves them.
pub open spec fn shown_before(items: Seq<ScanItem>, sort: SortMode, a: int, b: int) -> bool {
    let pa = items[a].path@;
    let pb = items[b].path@;
    let by_path = path_lt(pa, pb) || (pa == pb && a < b);
    match sort {
        SortMode::LargestFirst => size_of(items[a]) > size_of(items[b]) || (size_of(items[a])
            == size_of(items[b]) && by_path),
        SortMode::PathAscending => by_path,
    }
}

/// Whether `order` is the listing of `items`: exactly the indices that pass
/// the filter, each once, in the order of `shown_before`.
pub open spec fn is_listing(
    items: Seq<ScanItem>,
    filter: FilterMode,
    sort: SortMode,
    order: Seq<usize>,
) -> bool {
    &&& forall|x: usize|
        #![trigger order.contains(x)]
        order.contains(x) <==> (x < items.len() && passes_filter(filter, items[x as int].kind))
    &&& forall|a: int, b: int|
        0 <= a < b < order.len() ==> shown_before(items, sort, #[trigger] order[a] as int,
        #[trigger] order[b] as int)
}

proof fn lemma_shown_before_irreflexive(items: Seq<ScanItem>, sort: SortMode, a: int)
    ensures
        !shown_before(items, sort, a, a),
{
    lemma_path_lt_irreflexive(items[a].path@);
}

proof fn lemma_shown_before_transitive(
    items: Seq<ScanItem>,
    sort: SortMode,
    a: int,
    b: int,
    c: int,
)
    requires
        shown_before(items, sort, a, b),
        shown_before(items, sort, b, c),
    ensures
        shown_before(items, sort, a, c),
{
    let pa = items[a].path@;
    let pb = items[b].path@;
    let pc = items[c].path@;
    if path_lt(pa, pb) && path_lt(pb, pc) {
        lemma_path_lt_transitive(pa, pb, pc);
    }
    if path_lt(pa, pb) && pb == pc {
    }
    if path_lt(pa, pc) && pa == pc {
        lemma_path_lt_irreflexive(pa);
    }
    if pa == pc && (path_lt(pa, pb) || path_lt(pb, pc)) {
        if path_lt(pa, pb) && path_lt(pb, pc) {
            lemma_path_lt_transitive(pa, pb, pc);
            lemma_path_lt_irreflexive(pa);
        }
    }
    if path_lt(pa, pb) && path_lt(pb, pa) {
        lemma_path_lt_asymmetric(pa, pb);
    }
    if path_lt(pb, pc) && path_lt(pc, pb) {
        lemma_path_lt_asymmetric(pb, pc);
    }
}

proof fn lemma_shown_before_total(items: Seq<ScanItem>, sort: SortMode, a: int, b: int)
    requires
        a != b,
    ensures
        shown_before(items, sort, a, b) || shown_before(items, sort, b, a),
{
    let pa = items[a].path@;
    let pb = items[b].path@;
    if pa != pb {
        lemma_path_lt_total(pa, pb);
    }
}

/// Whether `s` is in strictly increasing order under `lt`.
pub open spec fn strictly_sorted(lt: spec_fn(usize, usize) -> bool, s: Seq<usize>) -> bool {
    forall|a: int, b: int| 0 <= a < b < s.len() ==> #[trigger] lt(s[a], s[b])
}

/// Two sequences sorted strictly by the same strict order, holding the same
/// elements, are the same sequence.
pub proof fn lemma_sorted_unique(lt: spec_fn(usize, usize) -> bool, o1: Seq<usize>, o2: Seq<usize>)
    requires
        forall|x: usize| !#[trigger] lt(x, x),
        forall|x: usize, y: usize, z: usize| #[trigger] lt(x, y) && #[trigger] lt(y, z) ==> lt(x, z),
        strictly_sorted(lt, o1),
        strictly_sorted(lt, o2),
        forall|x: usize| o1.contains(x) <==> o2.contains(x),
    ensures
        o1 == o2,
    decreases o1.len(),
{
    if o1.len() == 0 {
        if o2.len() > 0 {
            assert(o2.contains(o2[0]));
        }
        assert(o1 =~= o2);
    } else {
        assert(o1.contains(o1[0]));
        assert(o2.len() > 0);
        let k = choose|k: int| 0 <= k < o2.len() && o2[k] == o1[0];
        assert(o2.contains(o2[0]));
        let j = choose|j: int| 0 <= j < o1.len() && o1[j] == o2[0];
        if k > 0 {
            assert(lt(o2[0], o2[k]));
            if j > 0 {
                assert(lt(o1[0], o1[j]));
            }
            assert(false);
        }
        let r1 = o1.drop_first();
        let r2 = o2.drop_first();
        assert forall|x: usize| r1.contains(x) <==> r2.contains(x) by {
            if r1.contains(x) {
                let a = choose|a: int| 0 <= a < r1.len() && r1[a] == x;
                assert(o1[a + 1] == x);
                assert(lt(o1[0], o1[a + 1]));
                assert(o1.contains(x));
                let b = choose|b: int| 0 <= b < o2.len() && o2[b] == x;
                assert(b != 0);
                assert(r2[b - 1] == x);
            }
            if r2.contains(x) {
                let a = choose|a: int| 0 <= a < r2.len() && r2[a] == x;
                assert(o2[a + 1] == x);
                assert(lt(o2[0], o2[a + 1]));
                assert(o2.contains(x));
                let b = choose|b: int| 0 <= b < o1.len() && o1[b] == x;
                assert(b != 0);
                assert(r1[b - 1] == x);
            }
        }
        assert forall|a: int, b: int| 0 <= a < b < r1.len() implies #[trigger] lt(r1[a], r1[b]) by {
            assert(lt(o1[a + 1], o1[b + 1]));
        }
        assert forall|a: int, b: int| 0 <= a < b < r2.len() implies #[trigger] lt(r2[a], r2[b]) by {
            assert(lt(o2[a + 1], o2[b + 1]));
        }
        lemma_sorted_unique(lt, r1, r2);
        assert(o1 =~= o2) by {
            assert(o1 =~= seq![o1[0]] + r1);
            assert(o2 =~= seq![o2[0]] + r2);
        }
    }
}

/// The order of listing, on indices.
pub open spec fn listing_order(items: Seq<ScanItem>, sort: SortMode) -> spec_fn(usize, usize) -> bool {
    |a: usize, b: usize| shown_before(items, sort, a as int, b as int)
}

/// The listing of `items` (there is exactly one; see `lemma_listing_unique`).
pub open spec fn listing(items: Seq<ScanItem>, filter: FilterMode, sort: SortMode) -> Seq<usize> {
    choose|o: Seq<usize>| is_listing(items, filter, sort, o)
}

/// A listing is unique: any sequence that lists the items is `listing`.
pub proof fn lemma_listing_unique(items: Seq<ScanItem>, filter: FilterMode, sort: SortMode, o: Seq<usize>)
    requires
        is_listing(items, filter, sort, o),
    ensures
        listing(items, filter, sort) == o,
{
    let l = listing(items, filter, sort);
    let lt = listing_order(items, sort);
    assert forall|x: usize| !#[trigger] lt(x, x) by {
        lemma_shown_before_irreflexive(items, sort, x as int);
    }
    assert forall|x: usize, y: usize, z: usize| #[trigger] lt(x, y) && #[trigger] lt(y, z) implies lt(x, z) by {
        lemma_shown_before_transitive(items, sort, x as int, y as int, z as int);
    }
    assert(strictly_sorted(lt, o)) by {
        assert forall|a: int, b: int| 0 <= a < b < o.len() implies #[trigger] lt(o[a], o[b]) by {
            assert(shown_before(items, sort, o[a] as int, o[b] as int));
        }
    }
    assert(strictly_sorted(lt, l)) by {
        assert forall|a: int, b: int| 0 <= a < b < l.len() implies #[trigger] lt(l[a], l[b]) by {
            assert(shown_before(items, sort, l[a] as int, l[b] as int));
        }
    }
    assert forall|x: usize| l.contains(x) <==> o.contains(x) by {
        assert(o.contains(x) <==> (x < items.len() && passes_filter(filter, items[x as int].kind)));
        assert(l.contains(x) <==> (x < items.len() && passes_filter(filter, items[x as int].kind)));
    }
    lemma_sorted_unique(lt, l, o);
}

/// The increasing order on indices.
pub open spec fn index_lt() -> spec_fn(usize, usize) -> bool {
    |a: usize, b: usize| a < b
}

/// The members of a set of indices in increasing order.
pub open spec fn ascending(s: Set<usize>) -> Seq<usize> {
    choose|o: Seq<usize>| strictly_sorted(index_lt(), o) && forall|x: usize| #[trigger] o.contains(x) <==> s.contains(x)
}

proof fn lemma_ascending_unique(s: Set<usize>, o: Seq<usize>)
    requires
        strictly_sorted(index_lt(), o),
        forall|x: usize| #[trigger] o.contains(x) <==> s.contains(x),
    ensures
        ascending(s) == o,
{
    let a = ascending(s);
    assert forall|x: usize| a.contains(x) <==> o.contains(x) by {
        assert(a.contains(x) <==> s.contains(x));
    }
    lemma_sorted_unique(index_lt(), a, o);
}

/// A set of indices, kept by `BTreeSet` in increasing order.
#[derive(Debug)]
pub struct IndexSet {
    set: std::collections::BTreeSet<usize>,
}

impl View for IndexSet {
    type V = Set<usize>;

    closed spec fn view(&self) -> Set<usize> {
        self.set@
    }
}

impl IndexSet {
    /// The members are finitely many, and listing them in increasing order
    /// gives each once.
    pub proof fn lemma_finite(&self)
        ensures
            self@.finite(),
            ascending(self@).len() == self@.len(),
    {
        broadcast use vstd::std_specs::btree::group_btree_axioms, vstd::laws_cmp::group_laws_cmp;

        let keys = vstd::std_specs::btree::spec_btree_keys_iter(&self.set).remaining().unref();
        lemma_keys_ascending(&self.set);
        assert(keys.to_set() == self@);
        keys.unique_seq_to_set();
    }

    /// The empty set.
    pub fn new() -> (r: IndexSet)
        ensures
            r@ == Set::<usize>::empty(),
            r@.finite(),
    {
        IndexSet { set: std::collections::BTreeSet::new() }
    }

    /// Whether `x` is a member.
    pub fn contains(&self, x: usize) -> (r: bool)
        ensures
            r == self@.contains(x),
    {
        broadcast use vstd::std_specs::btree::group_btree_axioms, vstd::laws_cmp::group_laws_cmp;

        self.set.contains(&x)
    }

    /// Adds `x`; answers whether it was new.
    pub fn insert(&mut self, x: usize) -> (r: bool)
        ensures
            final(self)@ == old(self)@.insert(x),
            final(self)@.finite(),
            r == !old(self)@.contains(x),
    {
        broadcast use vstd::std_specs::btree::group_btree_axioms, vstd::laws_cmp::group_laws_cmp;

        proof {
            self.lemma_finite();
        }
        self.set.insert(x)
    }

    /// Removes `x`; answers whether it was a member.
    pub fn remove(&mut self, x: usize) -> (r: bool)
        ensures
            final(self)@ == old(self)@.remove(x),
            final(self)@.finite(),
            r == old(self)@.contains(x),
    {
        broadcast use vstd::std_specs::btree::group_btree_axioms, vstd::laws_cmp::group_laws_cmp;

        proof {
            self.lemma_finite();
        }
        self.set.remove(&x)
    }

    /// Removes every member.
    pub fn clear(&mut self)
        ensures
            final(self)@ == Set::<usize>::empty(),
            final(self)@.finite(),
    {
        self.set.clear();
    }

    /// Whether there are no members.
    pub fn is_empty(&self) -> (r: bool)
        ensures
            r == self@.is_empty(),
    {
        self.set.is_empty()
    }

    /// The number of members.
    pub fn len(&self) -> (r: usize)
        ensures
            r == self@.len(),
    {
        broadcast use vstd::std_specs::btree::group_btree_axioms, vstd::laws_cmp::group_laws_cmp;

        self.set.len()
    }

    /// The members in increasing order.
    pub fn to_vec(&self) -> (r: Vec<usize>)
        ensures
            r@ == ascending(self@),
    {
        broadcast use vstd::std_specs::btree::group_btree_axioms, vstd::laws_cmp::group_laws_cmp;

        let ghost keys = vstd::std_specs::btree::spec_btree_keys_iter(&self.set).remaining().unref();
        proof {
            lemma_keys_ascending(&self.set);
        }
        let mut out: Vec<usize> = Vec::new();
        for x in it: self.set.iter()
            invariant
                keys == vstd::std_specs::btree::spec_btree_keys_iter(&self.set).remaining().unref(),
                out@ == it.seq().unref().take(it.index()),
        {
            out.push(*x);
        }
        assert(out@ =~= keys);
        out
    }
}

proof fn lemma_keys_ascending(set: &std::collections::BTreeSet<usize>)
    ensures
        ({
            let keys = vstd::std_specs::btree::spec_btree_keys_iter(set).remaining().unref();
            &&& keys.to_set() == set@
            &&& keys.no_duplicates()
            &&& keys.len() == set@.len()
            &&& ascending(set@) == keys
        }),
{
    broadcast use vstd::std_specs::btree::group_btree_axioms, vstd::laws_cmp::group_laws_cmp;

    let rem = vstd::std_specs::btree::spec_btree_keys_iter(set).remaining();
    let keys = rem.unref();
    assert(vstd::std_specs::btree::increasing_seq(rem));
    assert(vstd::laws_cmp::obeys_cmp::<&usize>());
    vstd::std_specs::btree::axiom_increasing_seq_meaning(rem);
    assert(strictly_sorted(index_lt(), keys)) by {
        assert forall|a: int, b: int| 0 <= a < b < keys.len() implies #[trigger] index_lt()(
            keys[a],
            keys[b],
        ) by {
            assert(vstd::std_specs::cmp::OrdSpec::cmp_spec(&rem[a], &rem[b]) is Less);
            assert(keys[a] == *rem[a]);
            assert(keys[b] == *rem[b]);
        }
    }
    assert forall|x: usize| #[trigger] keys.contains(x) <==> set@.contains(x) by {
        assert(keys.to_set().contains(x) <==> keys.contains(x));
    }
    lemma_ascending_unique(set@, keys);
}

/// `current` moved by `delta`, kept within a list of `len` entries.
pub open spec fn shifted(current: int, len: int, delta: int) -> int {
    if len == 0 {
        0
    } else if current + delta < 0 {
        0
    } else if current + delta > len - 1 {
        len - 1
    } else {
        current + delta
    }
}

/// Moves a position by `delta` within a list of `len` entries, stopping at
/// either end; an empty list has position zero.
pub fn shift_index(current: usize, len: usize, delta: isize) -> (r: usize)
    requires
        current <= isize::MAX,
        isize::MIN <= current + delta <= isize::MAX,
        len <= isize::MAX + 1,
    ensures
        r == shifted(current as int, len as int, delta as int),
{
    if len == 0 {
        return 0;
    }
    let next: isize = current as isize + delta;
    let top: isize = (len - 1) as isize;
    if next < 0 {
        0
    } else if next > top {
        top as usize
    } else {
        next as usize
    }
}

/// Whether `f` is what results `o` become when they take in the deletion
/// `result`: nothing changes when nothing was deleted; otherwise the deleted
/// items leave the report, the totals are counted again, the marks are
/// cleared and the selection stays within the listing, all else unchanged.
pub open spec fn delete_applied(o: ResultsState, f: ResultsState, result: DeleteResult) -> bool {
    if result.deleted@.len() == 0 {
        f == o
    } else {
            &&& f.report.items@ == surviving(o.report.items@, path_views(result.deleted@))
            &&& f.report.totals.items == f.report.items@.len()
            &&& f.report.totals.bytes == total_size(f.report.items@)
            &&& kinds_of(f.report.totals.by_kind, f.report.items@)
            &&& f.checked@.is_empty()
            &&& f.selected_visible == if o.selected_visible < f.listed().len() {
                o.selected_visible as int
            } else if f.listed().len() == 0 {
                0
            } else {
                f.listed().len() - 1
            }
            &&& f.report.warnings == o.report.warnings
            &&& f.report.duration_ms == o.report.duration_ms
            &&& f.report.cancelled == o.report.cancelled
            &&& f.sort == o.sort
            &&& f.filter == o.filter
            &&& f.pending_delete == o.pending_delete
    }
}

impl ResultsState {
    /// Fresh results of `report`: nothing marked, the first listed item
    /// selected, largest first, everything listed, no deletion pending.
    pub fn new(report: ScanReport) -> (r: Self)
        ensures
            r.report == report,
            r.checked@.is_empty(),
            r.selected_visible == 0,
            r.sort == SortMode::LargestFirst,
            r.filter == FilterMode::All,
            r.pending_delete is None,
    {
        ResultsState {
            report,
            checked: IndexSet::new(),
            selected_visible: 0,
            sort: SortMode::LargestFirst,
            filter: FilterMode::All,
            pending_delete: None,
        }
    }

    fn lists_before(&self, a: usize, b: usize) -> (r: bool)
        requires
            a < self.report.items@.len(),
            b < self.report.items@.len(),
        ensures
            r == shown_before(self.report.items@, self.sort, a as int, b as int),
    {
        let ia = &self.report.items[a];
        let ib = &self.report.items[b];
        let by_path = ia.path.less_than(&ib.path) || (ia.path.same_as(&ib.path) && a < b);
        match self.sort {
            SortMode::LargestFirst => {
                let sa: u64 = match ia.bytes {
                    Some(x) => x,
                    None => 0,
                };
                let sb: u64 = match ib.bytes {
                    Some(x) => x,
                    None => 0,
                };
                sa > sb || (sa == sb && by_path)
            },
            SortMode::PathAscending => by_path,
        }
    }

    /// The indices of the listed items, in listed order.
    pub fn visible_indices(&self) -> (r: Vec<usize>)
        ensures
            is_listing(self.report.items@, self.filter, self.sort, r@),
            r@ == self.listed(),
    {
        let r = self.listing_vec();
        proof {
            lemma_listing_unique(self.report.items@, self.filter, self.sort, r@);
        }
        r
    }

    fn listing_vec(&self) -> (r: Vec<usize>)
        ensures
            is_listing(self.report.items@, self.filter, self.sort, r@),
    {
        let ghost items = self.report.items@;
        let n = self.report.items.len();
        let mut out: Vec<usize> = Vec::new();
        let mut i: usize = 0;
        while i < n
            invariant
                n == items.len(),
                items == self.report.items@,
                i <= n,
                forall|x: usize|
                    #![trigger out@.contains(x)]
                    out@.contains(x) <==> (x < i && passes_filter(
                        self.filter,
                        items[x as int].kind,
                    )),
                forall|a: int, b: int|
                    0 <= a < b < out@.len() ==> shown_before(
                        items,
                        self.sort,
                        #[trigger] out@[a] as int,
                        #[trigger] out@[b] as int,
                    ),
            decreases n - i,
        {
            let kind = self.report.items[i].kind;
            let pass = match self.filter {
                FilterMode::All => true,
                FilterMode::CacheAndBuild => kind != ArtifactKind::Dependency,
                FilterMode::Dependencies => kind == ArtifactKind::Dependency,
            };
            if pass {
                let len = out.len();
                let mut p: usize = 0;
                assert forall|q: int| 0 <= q < len implies out@[q] < i by {
                    assert(out@.contains(out@[q]));
                }
                while p < len && !self.lists_before(i, out[p])
                    invariant
                        len == out@.len(),
                        p <= len,
                        i < n,
                        n == items.len(),
                        items == self.report.items@,
                        forall|x: usize|
                            #![trigger out@.contains(x)]
                            out@.contains(x) ==> x < i,
                        forall|q: int| 0 <= q < len ==> out@[q] < i,
                        forall|q: int|
                            0 <= q < p ==> !shown_before(items, self.sort, i as int, #[trigger] out@[q] as int),
                    decreases len - p,
                {
                    assert(out@.contains(out@[p as int]));
                    p = p + 1;
                }
                let ghost before = out@;
                proof {
                    assert forall|q: int| 0 <= q < p implies shown_before(
                        items,
                        self.sort,
                        #[trigger] before[q] as int,
                        i as int,
                    ) by {
                        assert(before.contains(before[q]));
                        lemma_shown_before_total(items, self.sort, before[q] as int, i as int);
                    }
                    if p < len {
                        assert forall|q: int| p <= q < len implies shown_before(
                            items,
                            self.sort,
                            i as int,
                            #[trigger] before[q] as int,
                        ) by {
                            if q > p {
                                lemma_shown_before_transitive(
                                    items,
                                    self.sort,
                                    i as int,
                                    before[p as int] as int,
                                    before[q] as int,
                                );
                            }
                        }
                    }
                }
                out.insert(p, i);
                proof {
                    assert(out@ =~= before.insert(p as int, i));
                    assert forall|x: usize|
                        #![trigger out@.contains(x)]
                        out@.contains(x) <==> (x < i + 1 && passes_filter(
                            self.filter,
                            items[x as int].kind,
                        )) by {
                        if x == i {
                            assert(out@[p as int] == i);
                        }
                        if out@.contains(x) && x != i {
                            let k = choose|k: int| 0 <= k < out@.len() && out@[k] == x;
                            if k < p {
                                assert(before[k] == x);
                            } else {
                                assert(before[k - 1] == x);
                            }
                        }
                        if before.contains(x) {
                            let k = choose|k: int| 0 <= k < before.len() && before[k] == x;
                            if k < p {
                                assert(out@[k] == x);
                            } else {
                                assert(out@[k + 1] == x);
                            }
                        }
                    }
                    assert forall|a: int, b: int|
                        0 <= a < b < out@.len() implies shown_before(
                        items,
                        self.sort,
                        #[trigger] out@[a] as int,
                        #[trigger] out@[b] as int,
                    ) by {
                        if a < p && b < p {
                            assert(out@[a] == before[a] && out@[b] == before[b]);
                        } else if a < p && b == p {
                            assert(out@[a] == before[a]);
                        } else if a < p && b > p {
                            assert(out@[a] == before[a] && out@[b] == before[b - 1]);
                        } else if a == p {
                            assert(out@[b] == before[b - 1]);
                        } else {
                            assert(out@[a] == before[a - 1] && out@[b] == before[b - 1]);
                        }
                    }
                }
            } else {
                proof {
                    assert forall|x: usize|
                        #![trigger out@.contains(x)]
                        out@.contains(x) <==> (x < i + 1 && passes_filter(
                            self.filter,
                            items[x as int].kind,
                        )) by {
                        if out@.contains(x) {
                            assert(x < i);
                        }
                    }
                }
            }
            i = i + 1;
        }
        out
    }
}

/// The sum of the sizes of the items at `indices`; indices past the end
/// count nothing.
pub open spec fn indices_size(items: Seq<ScanItem>, indices: Seq<usize>) -> nat
    decreases indices.len(),
{
    if indices.len() == 0 {
        0
    } else {
        indices_size(items, indices.drop_last()) + if indices.last() < items.len() {
            size_of(items[indices.last() as int])
        } else {
            0
        }
    }
}

/// The items at `indices`, skipping indices past the end.
pub open spec fn picked(items: Seq<ScanItem>, indices: Seq<usize>) -> Seq<ScanItemView>
    decreases indices.len(),
{
    if indices.len() == 0 {
        Seq::empty()
    } else {
        let prev = picked(items, indices.drop_last());
        if indices.last() < items.len() {
            prev.push(items[indices.last() as int]@)
        } else {
            prev
        }
    }
}

/// The items whose path is not among `deleted`, in their order.
pub open spec fn surviving(items: Seq<ScanItem>, deleted: Seq<Seq<Seq<char>>>) -> Seq<ScanItem>
    decreases items.len(),
{
    if items.len() == 0 {
        Seq::empty()
    } else {
        let prev = surviving(items.drop_last(), deleted);
        if deleted.contains(items.last().path@) {
            prev
        } else {
            prev.push(items.last())
        }
    }
}

proof fn lemma_surviving_size(items: Seq<ScanItem>, deleted: Seq<Seq<Seq<char>>>)
    ensures
        total_size(surviving(items, deleted)) <= total_size(items),
    decreases items.len(),
{
    if items.len() > 0 {
        lemma_surviving_size(items.drop_last(), deleted);
        let prev = surviving(items.drop_last(), deleted);
        if !deleted.contains(items.last().path@) {
            assert(prev.push(items.last()).drop_last() =~= prev);
        }
    }
}

impl ResultsState {
    /// The indices of the listed items, in listed order.
    pub open spec fn listed(&self) -> Seq<usize> {
        listing(self.report.items@, self.filter, self.sort)
    }

    /// The index of the selected item, when the selection lies within the
    /// listing.
    pub open spec fn selected_index(&self) -> Option<usize> {
        if self.selected_visible < self.listed().len() {
            Some(self.listed()[self.selected_visible as int])
        } else {
            None
        }
    }

    /// The items an action applies to: the marked ones in increasing order,
    /// or the selected one when none is marked.
    pub open spec fn targets(&self) -> Seq<usize> {
        if self.checked@.is_empty() {
            match self.selected_index() {
                Some(i) => seq![i],
                None => Seq::empty(),
            }
        } else {
            ascending(self.checked@)
        }
    }

    /// The index of the selected item, if any.
    pub fn selected_item_index(&self) -> (r: Option<usize>)
        ensures
            r == self.selected_index(),
    {
        let visible = self.visible_indices();
        if self.selected_visible < visible.len() {
            Some(visible[self.selected_visible])
        } else {
            None
        }
    }

    /// The selected item, if any.
    pub fn selected_item(&self) -> (r: Option<&ScanItem>)
        ensures
            match self.selected_index() {
                Some(i) => (r matches Some(item) && *item == self.report.items@[i as int]),
                None => r is None,
            },
    {
        let visible = self.visible_indices();
        if self.selected_visible < visible.len() {
            let index = visible[self.selected_visible];
            assert(visible@.contains(index));
            Some(&self.report.items[index])
        } else {
            None
        }
    }

    /// Moves the selection by `delta` within the listing, stopping at either
    /// end.
    pub fn move_selection(&mut self, delta: isize)
        requires
            old(self).selected_visible <= isize::MAX,
            isize::MIN <= old(self).selected_visible + delta <= isize::MAX,
            old(self).listed().len() <= isize::MAX + 1,
        ensures
            final(self).selected_visible == shifted(
                old(self).selected_visible as int,
                old(self).listed().len() as int,
                delta as int,
            ),
            final(self).report == old(self).report,
            final(self).checked@ == old(self).checked@,
            final(self).sort == old(self).sort,
            final(self).filter == old(self).filter,
            final(self).pending_delete == old(self).pending_delete,
    {
        let visible = self.visible_indices();
        self.selected_visible = shift_index(self.selected_visible, visible.len(), delta);
    }

    /// Marks the selected item, or unmarks it when it is marked.
    pub fn toggle_selected(&mut self)
        ensures
            final(self).checked@ == match old(self).selected_index() {
                Some(i) => if old(self).checked@.contains(i) {
                    old(self).checked@.remove(i)
                } else {
                    old(self).checked@.insert(i)
                },
                None => old(self).checked@,
            },
            final(self).report == old(self).report,
            final(self).selected_visible == old(self).selected_visible,
            final(self).sort == old(self).sort,
            final(self).filter == old(self).filter,
            final(self).pending_delete == old(self).pending_delete,
    {
        match self.selected_item_index() {
            Some(index) => {
                if !self.checked.insert(index) {
                    self.checked.remove(index);
                }
            },
            None => {},
        }
    }

    /// Marks every listed item, or, when all of them are marked already,
    /// unmarks every listed item. Items that are not listed keep their mark.
    pub fn toggle_all_visible(&mut self)
        ensures
            final(self).checked@ == toggled_all(old(self).checked@, old(self).listed().to_set()),
            final(self).report == old(self).report,
            final(self).selected_visible == old(self).selected_visible,
            final(self).sort == old(self).sort,
            final(self).filter == old(self).filter,
            final(self).pending_delete == old(self).pending_delete,
    {
        let visible = self.visible_indices();
        let ghost listed = visible@.to_set();
        let n = visible.len();
        let mut all = true;
        let mut i: usize = 0;
        while i < n
            invariant
                n == visible@.len(),
                i <= n,
                all == forall|j: int| 0 <= j < i ==> self.checked@.contains(#[trigger] visible@[j]),
            decreases n - i,
        {
            if !self.checked.contains(visible[i]) {
                all = false;
            }
            i = i + 1;
        }
        proof {
            if all {
                assert forall|x: usize| listed.contains(x) implies self.checked@.contains(x) by {
                    let j = choose|j: int| 0 <= j < n && visible@[j] == x;
                }
            } else {
                let j = choose|j: int| 0 <= j < n && !self.checked@.contains(#[trigger] visible@[j]);
                assert(listed.contains(visible@[j]));
            }
        }
        let ghost start = self.checked@;
        let mut k: usize = 0;
        while k < n
            invariant
                n == visible@.len(),
                k <= n,
                listed == visible@.to_set(),
                self.checked@ == if all {
                    start.difference(visible@.take(k as int).to_set())
                } else {
                    start.union(visible@.take(k as int).to_set())
                },
                self.report == old(self).report,
                self.selected_visible == old(self).selected_visible,
                self.sort == old(self).sort,
                self.filter == old(self).filter,
                self.pending_delete == old(self).pending_delete,
            decreases n - k,
        {
            let ghost prev = visible@.take(k as int).to_set();
            assert(visible@.take(k + 1).to_set() =~= prev.insert(visible@[k as int])) by {
                assert(visible@.take(k + 1) =~= visible@.take(k as int).push(visible@[k as int]));
                visible@.take(k as int).lemma_push_to_set_commute(visible@[k as int]);
            }
            if all {
                self.checked.remove(visible[k]);
                assert(self.checked@ =~= start.difference(visible@.take(k + 1).to_set()));
            } else {
                self.checked.insert(visible[k]);
                assert(self.checked@ =~= start.union(visible@.take(k + 1).to_set()));
            }
            k = k + 1;
        }
        assert(visible@.take(n as int) =~= visible@);
    }

    /// Unmarks everything.
    pub fn clear_selection(&mut self)
        ensures
            final(self).checked@.is_empty(),
            final(self).report == old(self).report,
            final(self).selected_visible == old(self).selected_visible,
            final(self).sort == old(self).sort,
            final(self).filter == old(self).filter,
            final(self).pending_delete == old(self).pending_delete,
    {
        self.checked.clear();
    }

    /// Switches between the two orders and selects the first listed item.
    pub fn cycle_sort(&mut self)
        ensures
            final(self).sort == next_sort(old(self).sort),
            final(self).selected_visible == 0,
            final(self).report == old(self).report,
            final(self).checked@ == old(self).checked@,
            final(self).filter == old(self).filter,
            final(self).pending_delete == old(self).pending_delete,
    {
        self.sort = match self.sort {
            SortMode::LargestFirst => SortMode::PathAscending,
            SortMode::PathAscending => SortMode::LargestFirst,
        };
        self.selected_visible = 0;
    }

    /// Moves to the next filter (all, cache and build, dependencies, all
    /// again) and selects the first listed item.
    pub fn cycle_filter(&mut self)
        ensures
            final(self).filter == next_filter(old(self).filter),
            final(self).selected_visible == 0,
            final(self).report == old(self).report,
            final(self).checked@ == old(self).checked@,
            final(self).sort == old(self).sort,
            final(self).pending_delete == old(self).pending_delete,
    {
        self.filter = match self.filter {
            FilterMode::All => FilterMode::CacheAndBuild,
            FilterMode::CacheAndBuild => FilterMode::Dependencies,
            FilterMode::Dependencies => FilterMode::All,
        };
        self.selected_visible = 0;
    }

    fn target_vec(&self) -> (r: Vec<usize>)
        ensures
            r@ == self.targets(),
    {
        if self.checked.is_empty() {
            let mut v: Vec<usize> = Vec::new();
            match self.selected_item_index() {
                Some(i) => {
                    v.push(i);
                    assert(v@ =~= seq![i]);
                },
                None => {
                    assert(v@ =~= Seq::<usize>::empty());
                },
            }
            v
        } else {
            self.checked.to_vec()
        }
    }

    /// Whether the sizes of the targets add up within a `u64`, so that
    /// `checked_bytes` and `begin_delete` can count them.
    pub fn targets_size_fits(&self) -> (r: bool)
        ensures
            r == (indices_size(self.report.items@, self.targets()) <= u64::MAX),
    {
        let indices = self.target_vec();
        let n = indices.len();
        let mut total: u64 = 0;
        let mut i: usize = 0;
        while i < n
            invariant
                n == indices@.len(),
                i <= n,
                total == indices_size(self.report.items@, indices@.take(i as int)),
                indices@ == self.targets(),
            decreases n - i,
        {
            assert(indices@.take(i + 1).drop_last() =~= indices@.take(i as int));
            let index = indices[i];
            if index < self.report.items.len() {
                let b: u64 = match self.report.items[index].bytes {
                    Some(x) => x,
                    None => 0,
                };
                match total.checked_add(b) {
                    Some(t) => {
                        total = t;
                    },
                    None => {
                        proof {
                            assert(indices@.take(i + 1).last() == index);
                            lemma_indices_size_prefix(self.report.items@, indices@, i + 1);
                        }
                        return false;
                    },
                }
            }
            i = i + 1;
        }
        assert(indices@.take(n as int) =~= indices@);
        true
    }

    fn size_at(&self, indices: &Vec<usize>) -> (r: u64)
        requires
            indices_size(self.report.items@, indices@) <= u64::MAX,
        ensures
            r == indices_size(self.report.items@, indices@),
    {
        let n = indices.len();
        let mut total: u64 = 0;
        let mut i: usize = 0;
        while i < n
            invariant
                n == indices@.len(),
                i <= n,
                total == indices_size(self.report.items@, indices@.take(i as int)),
                indices_size(self.report.items@, indices@) <= u64::MAX,
            decreases n - i,
        {
            assert(indices@.take(i + 1).drop_last() =~= indices@.take(i as int));
            proof {
                lemma_indices_size_prefix(self.report.items@, indices@, i + 1);
            }
            let index = indices[i];
            if index < self.report.items.len() {
                match self.report.items[index].bytes {
                    Some(b) => {
                        total = total + b;
                    },
                    None => {},
                }
            }
            i = i + 1;
        }
        assert(indices@.take(n as int) =~= indices@);
        total
    }

    /// Asks for confirmation to delete the targets (the marked items, or the
    /// selected one) with `strategy`; answers whether there was anything to
    /// delete. Without targets nothing changes.
    pub fn begin_delete(&mut self, strategy: DeleteStrategy) -> (r: bool)
        requires
            indices_size(old(self).report.items@, old(self).targets()) <= u64::MAX,
        ensures
            r == (old(self).targets().len() > 0),
            r == !(old(self).checked@.is_empty() && old(self).selected_index() is None),
            r ==> (final(self).pending_delete matches Some(p) && p.strategy == strategy
                && p.item_indices@ == old(self).targets() && p.total_bytes == indices_size(
                old(self).report.items@,
                old(self).targets(),
            )),
            !r ==> final(self).pending_delete == old(self).pending_delete,
            final(self).report == old(self).report,
            final(self).checked@ == old(self).checked@,
            final(self).selected_visible == old(self).selected_visible,
            final(self).sort == old(self).sort,
            final(self).filter == old(self).filter,
    {
        proof {
            self.checked.lemma_finite();
        }
        let item_indices = self.target_vec();
        if item_indices.len() == 0 {
            return false;
        }
        let total_bytes = self.size_at(&item_indices);
        self.pending_delete = Some(PendingDelete { strategy, item_indices, total_bytes });
        true
    }

    /// How many items an action would apply to: the number of marked items,
    /// or one for the selected item when none is marked.
    pub fn selected_count(&self) -> (r: usize)
        ensures
            r == if self.checked@.is_empty() {
                if self.selected_index() is Some {
                    1int
                } else {
                    0int
                }
            } else {
                self.checked@.len() as int
            },
            r == self.targets().len(),
    {
        proof {
            self.checked.lemma_finite();
        }
        if self.checked.is_empty() {
            if self.selected_item_index().is_some() {
                1
            } else {
                0
            }
        } else {
            self.checked.len()
        }
    }

    /// The bytes that deleting the targets would reclaim.
    pub fn checked_bytes(&self) -> (r: u64)
        requires
            indices_size(self.report.items@, self.targets()) <= u64::MAX,
        ensures
            r == indices_size(self.report.items@, self.targets()),
    {
        let indices = self.target_vec();
        self.size_at(&indices)
    }

    /// Copies of the items of the pending deletion, in its order.
    pub fn delete_items(&self) -> (r: Vec<ScanItem>)
        ensures
            item_views(r@) == match self.pending_delete {
                Some(p) => picked(self.report.items@, p.item_indices@),
                None => Seq::empty(),
            },
    {
        let mut out: Vec<ScanItem> = Vec::new();
        match &self.pending_delete {
            Some(pending) => {
                let n = pending.item_indices.len();
                let mut i: usize = 0;
                while i < n
                    invariant
                        n == pending.item_indices@.len(),
                        i <= n,
                        item_views(out@) == picked(
                            self.report.items@,
                            pending.item_indices@.take(i as int),
                        ),
                    decreases n - i,
                {
                    assert(pending.item_indices@.take(i + 1).drop_last() =~= pending.item_indices@.take(i as int));
                    let index = pending.item_indices[i];
                    if index < self.report.items.len() {
                        let copy = self.report.items[index].duplicate();
                        let ghost before = out@;
                        out.push(copy);
                        assert(item_views(out@) =~= item_views(before).push(copy@));
                    }
                    i = i + 1;
                }
                assert(pending.item_indices@.take(n as int) =~= pending.item_indices@);
            },
            None => {
                assert(item_views(out@) =~= Seq::<ScanItemView>::empty());
            },
        }
        out
    }

    /// Takes in what a deletion achieved: the deleted items leave the
    /// report, the totals are counted again, the marks are cleared and the
    /// selection stays within the listing. A deletion of nothing changes
    /// nothing.
    pub fn apply_delete_result(&mut self, result: &DeleteResult)
        requires
            !old(self).deleted_nothing(result) ==> total_size(old(self).report.items@) <= u64::MAX,
        ensures
            delete_applied(*old(self), *final(self), *result),
    {
        if result.deleted.len() == 0 {
            return;
        }
        let mut items: Vec<ScanItem> = Vec::new();
        std::mem::swap(&mut items, &mut self.report.items);
        let ghost all = items@;
        let ghost dels = path_views(result.deleted@);
        let mut reversed: Vec<ScanItem> = Vec::new();
        while items.len() > 0
            invariant
                all == items@ + reversed@.reverse(),
            decreases items@.len(),
        {
            let item = items.pop().unwrap();
            let ghost before_rev = reversed@;
            reversed.push(item);
            assert(reversed@.reverse() =~= seq![item] + before_rev.reverse());
            assert(all =~= items@ + reversed@.reverse());
        }
        assert(all =~= reversed@.reverse());
        let mut kept: Vec<ScanItem> = Vec::new();
        let ghost mut taken: int = 0;
        while reversed.len() > 0
            invariant
                0 <= taken <= all.len(),
                reversed@.reverse() == all.skip(taken),
                kept@ == surviving(all.take(taken), dels),
                dels == path_views(result.deleted@),
            decreases reversed@.len(),
        {
            let ghost before_rev = reversed@;
            let item = reversed.pop().unwrap();
            proof {
                assert(before_rev.reverse()[0] == item);
                assert(reversed@.reverse() =~= before_rev.reverse().drop_first());
                assert(all.skip(taken)[0] == item);
                assert(all.take(taken + 1).drop_last() =~= all.take(taken));
                assert(all.take(taken + 1).last() == item);
            }
            if !self.is_deleted_path(&item.path, result) {
                kept.push(item);
            }
            proof {
                assert(all.skip(taken + 1) =~= all.skip(taken).drop_first());
                taken = taken + 1;
            }
        }
        proof {
            assert(all.skip(taken).len() == 0);
            assert(taken == all.len());
            assert(all.take(taken) =~= all);
            lemma_surviving_size(all, dels);
        }
        self.report.totals = recalculate_totals(&kept);
        self.report.items = kept;
        self.checked.clear();
        let visible_len = self.visible_indices().len();
        let limit = if visible_len > 0 {
            visible_len - 1
        } else {
            0
        };
        if self.selected_visible > limit {
            self.selected_visible = limit;
        }
    }

    /// Whether `result` deleted nothing.
    pub open spec fn deleted_nothing(&self, result: &DeleteResult) -> bool {
        result.deleted@.len() == 0
    }

    fn is_deleted_path(&self, path: &FsPath, result: &DeleteResult) -> (r: bool)
        ensures
            r == path_views(result.deleted@).contains(path@),
    {
        let n = result.deleted.len();
        let mut i: usize = 0;
        while i < n
            invariant
                n == result.deleted@.len(),
                i <= n,
                forall|j: int| 0 <= j < i ==> result.deleted@[j]@ != path@,
            decreases n - i,
        {
            if result.deleted[i].same_as(path) {
                assert(path_views(result.deleted@)[i as int] == path@);
                return true;
            }
            i = i + 1;
        }
        assert(!path_views(result.deleted@).contains(path@)) by {
            if path_views(result.deleted@).contains(path@) {
                let j = choose|j: int| 0 <= j < n && path_views(result.deleted@)[j] == path@;
                assert(result.deleted@[j]@ == path@);
            }
        }
        false
    }
}

/// The filter that follows `f` in the cycle.
/// The marks after marking every listed item, or unmarking them all when
/// all of them were marked.
pub open spec fn toggled_all(checked: Set<usize>, listed: Set<usize>) -> Set<usize> {
    if listed.subset_of(checked) {
        checked.difference(listed)
    } else {
        checked.union(listed)
    }
}

/// The order after `cycle_sort`.
pub open spec fn next_sort(s: SortMode) -> SortMode {
    match s {
        SortMode::LargestFirst => SortMode::PathAscending,
        SortMode::PathAscending => SortMode::LargestFirst,
    }
}

/// The filter after `cycle_filter`.
pub open spec fn next_filter(f: FilterMode) -> FilterMode {
    match f {
        FilterMode::All => FilterMode::CacheAndBuild,
        FilterMode::CacheAndBuild => FilterMode::Dependencies,
        FilterMode::Dependencies => FilterMode::All,
    }
}

proof fn lemma_indices_size_prefix(items: Seq<ScanItem>, indices: Seq<usize>, i: int)
    requires
        0 <= i <= indices.len(),
    ensures
        indices_size(items, indices.take(i)) <= indices_size(items, indices),
    decreases indices.len() - i,
{
    if i < indices.len() {
        lemma_indices_size_prefix(items, indices, i + 1);
        assert(indices.take(i + 1).drop_last() =~= indices.take(i));
    } else {
        assert(indices.take(i) =~= indices);
    }
}

/// What a cleanup did, and how it deleted.
#[derive(Clone, Debug)]
pub struct SummaryState {
    pub result: DeleteResult,
    pub strategy: DeleteStrategy,
}

impl SummaryState {
    /// The heading of the cleanup summary: the strategy, then how many paths
    /// were deleted and how many failed.
    pub fn title(&self) -> (r: String)
        ensures
            r@ == strategy_label(self.strategy) + " completed: "@ + decimal(
                self.result.deleted@.len(),
            ) + " deleted, "@ + decimal(self.result.failed@.len()) + " failed"@,
    {
        let mut out = String::new();
        push_str(&mut out, self.strategy.label());
        push_str(&mut out, " completed: ");
        push_decimal(&mut out, self.result.deleted.len() as u64);
        push_str(&mut out, " deleted, ");
        push_decimal(&mut out, self.result.failed.len() as u64);
        push_str(&mut out, " failed");
        assert(out@ =~= strategy_label(self.strategy) + " completed: "@ + decimal(
            self.result.deleted@.len(),
        ) + " deleted, "@ + decimal(self.result.failed@.len()) + " failed"@);
        out
    }
}

/// The hint under the results: how many items an action applies to, and
/// how much it would reclaim.
pub fn footer_hint(results: &ResultsState) -> (r: String)
    requires
        indices_size(results.report.items@, results.targets()) <= u64::MAX,
    ensures
        r@ == "selected "@ + decimal(
            (if results.checked@.is_empty() {
                if results.selected_index() is Some {
                    1nat
                } else {
                    0nat
                }
            } else {
                results.checked@.len()
            }),
        ) + " \u{2022} "@ + format_bytes_spec(indices_size(results.report.items@, results.targets())),
{
    let mut out = String::new();
    push_str(&mut out, "selected ");
    push_decimal(&mut out, results.selected_count() as u64);
    push_str(&mut out, " \u{2022} ");
    let shown = format_bytes(results.checked_bytes());
    push_str(&mut out, shown.as_str());
    out
}

} // verus!
