//! Filesystem paths as sequences of components.
//!
//! A path is held as its components, the way `std::path::Path::components`
//! yields them on Unix: `/` for the root, `.` for a leading current-directory
//! marker, `..` for a parent marker, and plain names otherwise. Two paths are
//! equal, and ordered, by their components, as `Path` compares them.
use vstd::prelude::*;
use vstd::string::*;

use crate::text::{chars_lt, owned, push_char, push_str, same_text, text_lt};

verus! {

/// The root component.
pub open spec fn root_comp() -> Seq<char> {
    seq!['/']
}

/// The current-directory component.
pub open spec fn cur_comp() -> Seq<char> {
    seq!['.']
}

/// The parent-directory component.
pub open spec fn parent_comp() -> Seq<char> {
    seq!['.', '.']
}

/// The `/`-separated segments of a string, empty ones included.
pub open spec fn segments(s: Seq<char>) -> Seq<Seq<char>>
    decreases s.len(),
{
    if s.len() == 0 {
        seq![Seq::empty()]
    } else {
        let prev = segments(s.drop_last());
        if s.last() == '/' {
            prev.push(Seq::empty())
        } else {
            prev.update(prev.len() - 1, prev.last().push(s.last()))
        }
    }
}

/// Whether the segment at position `index` yields a component: empty
/// segments never do, and `.` only when it is the very first segment.
pub open spec fn keeps_segment(seg: Seq<char>, index: int) -> bool {
    seg.len() > 0 && (seg == cur_comp() ==> index == 0)
}

/// The components that the first `n` segments yield.
pub open spec fn kept_segments(segs: Seq<Seq<char>>, n: int) -> Seq<Seq<char>>
    decreases n,
{
    if n <= 0 {
        Seq::empty()
    } else {
        let prev = kept_segments(segs, n - 1);
        if keeps_segment(segs[n - 1], n - 1) {
            prev.push(segs[n - 1])
        } else {
            prev
        }
    }
}

/// The components of the path written as `s`.
pub open spec fn parse_spec(s: Seq<char>) -> Seq<Seq<char>> {
    let segs = segments(s);
    let body = kept_segments(segs, segs.len() as int);
    if s.len() > 0 && s[0] == '/' {
        seq![root_comp()] + body
    } else {
        body
    }
}

/// Whether the components start at the root.
pub open spec fn is_absolute_spec(p: Seq<Seq<char>>) -> bool {
    p.len() > 0 && p[0] == root_comp()
}

/// Components joined by `/`.
pub open spec fn join_with_slash(parts: Seq<Seq<char>>) -> Seq<char>
    decreases parts.len(),
{
    if parts.len() == 0 {
        Seq::empty()
    } else if parts.len() == 1 {
        parts[0]
    } else {
        join_with_slash(parts.drop_last()) + seq!['/'] + parts.last()
    }
}

/// How a path is written out: the root as a leading `/`, then the other
/// components separated by `/`.
pub open spec fn display_spec(p: Seq<Seq<char>>) -> Seq<char> {
    if is_absolute_spec(p) {
        seq!['/'] + join_with_slash(p.skip(1))
    } else {
        join_with_slash(p)
    }
}

/// What `Path::parent` returns: the path without its last component, unless
/// there is none or it is the root.
pub open spec fn parent_spec(p: Seq<Seq<char>>) -> Option<Seq<Seq<char>>> {
    if p.len() == 0 || p.last() == root_comp() {
        None
    } else {
        Some(p.drop_last())
    }
}

/// Whether a component is a plain name.
pub open spec fn is_normal_comp(c: Seq<char>) -> bool {
    c != root_comp() && c != cur_comp() && c != parent_comp()
}

/// What `Path::file_name` returns: the last component when it is a name.
pub open spec fn file_name_spec(p: Seq<Seq<char>>) -> Option<Seq<char>> {
    if p.len() > 0 && is_normal_comp(p.last()) {
        Some(p.last())
    } else {
        None
    }
}

/// What `Path::join` gives: `other` itself when it is absolute, else the
/// components of both, where a leading `.` of `other` disappears behind a
/// nonempty base.
pub open spec fn join_spec(base: Seq<Seq<char>>, other: Seq<Seq<char>>) -> Seq<Seq<char>> {
    if is_absolute_spec(other) {
        other
    } else if base.len() > 0 && other.len() > 0 && other[0] == cur_comp() {
        base + other.drop_first()
    } else {
        base + other
    }
}

/// What `Path::starts_with` answers: whether the components of `base` are a
/// prefix of those of `p`.
pub open spec fn starts_with_spec(p: Seq<Seq<char>>, base: Seq<Seq<char>>) -> bool {
    base.is_prefix_of(p)
}

/// The rank of a component in `std::path::Component`'s order.
pub open spec fn comp_rank(c: Seq<char>) -> int {
    if c == root_comp() {
        0
    } else if c == cur_comp() {
        1
    } else if c == parent_comp() {
        2
    } else {
        3
    }
}

/// The order on components: by kind, then names by their characters.
pub open spec fn comp_lt(a: Seq<char>, b: Seq<char>) -> bool {
    if comp_rank(a) != comp_rank(b) {
        comp_rank(a) < comp_rank(b)
    } else {
        comp_rank(a) == 3 && chars_lt(a, b)
    }
}

/// The order on paths: lexicographic over their components, as `Path::cmp`.
pub open spec fn path_lt(a: Seq<Seq<char>>, b: Seq<Seq<char>>) -> bool
    decreases a.len(),
{
    if b.len() == 0 {
        false
    } else if a.len() == 0 {
        true
    } else if a[0] != b[0] {
        comp_lt(a[0], b[0])
    } else {
        path_lt(a.drop_first(), b.drop_first())
    }
}

/// A filesystem path, held as its components, with the text it is written
/// as where that is known (a path read from text keeps the text as given).
#[derive(Clone, Debug)]
pub struct FsPath {
    comps: Vec<String>,
    text: Option<String>,
}

/// The text `Path::push` (and so `Path::join`) makes of a path written `base`
/// followed by a relative path written `other`: a `/` goes between them
/// unless `base` is empty or already ends with one.
pub open spec fn pushed(base: Seq<char>, other: Seq<char>) -> Seq<char> {
    if base.len() == 0 || base.last() == '/' {
        base + other
    } else {
        base + seq!['/'] + other
    }
}

/// The views of a sequence of strings.
pub open spec fn string_views(v: Seq<String>) -> Seq<Seq<char>> {
    v.map_values(|c: String| c@)
}

impl View for FsPath {
    type V = Seq<Seq<char>>;

    closed spec fn view(&self) -> Seq<Seq<char>> {
        string_views(self.comps@)
    }
}

proof fn lemma_segments_nonempty(s: Seq<char>)
    ensures
        segments(s).len() >= 1,
    decreases s.len(),
{
    if s.len() > 0 {
        lemma_segments_nonempty(s.drop_last());
    }
}

proof fn lemma_kept_agree(a: Seq<Seq<char>>, b: Seq<Seq<char>>, n: int)
    requires
        0 <= n <= a.len(),
        n <= b.len(),
        forall|i: int| 0 <= i < n ==> a[i] == b[i],
    ensures
        kept_segments(a, n) == kept_segments(b, n),
    decreases n,
{
    if n > 0 {
        lemma_kept_agree(a, b, n - 1);
    }
}

proof fn lemma_views_push(v: Seq<String>, s: String)
    ensures
        string_views(v.push(s)) == string_views(v).push(s@),
{
    assert(string_views(v.push(s)) =~= string_views(v).push(s@));
}

impl FsPath {
    /// The text the path is written as, when it is known: the text it was
    /// read from, or the text a join made of known texts.
    pub closed spec fn written(&self) -> Option<Seq<char>> {
        match self.text {
            Some(t) => Some(t@),
            None => None,
        }
    }

    /// How the path shows: its text when known, else its components written
    /// out with `/` between them.
    pub open spec fn shown(&self) -> Seq<char> {
        match self.written() {
            Some(t) => t,
            None => display_spec(self@),
        }
    }

    /// The path with no components (written as the empty string).
    pub fn empty() -> (r: FsPath)
        ensures
            r@ == Seq::<Seq<char>>::empty(),
    {
        let r = FsPath { comps: Vec::new(), text: None };
        assert(r@ =~= Seq::<Seq<char>>::empty());
        r
    }

    /// A copy of this path.
    pub fn duplicate(&self) -> (r: FsPath)
        ensures
            r@ == self@,
            r.written() == self.written(),
    {
        let comps = self.comps.clone();
        assert(comps@ =~= self.comps@);
        let text = match &self.text {
            Some(t) => Some(t.clone()),
            None => None,
        };
        FsPath { comps, text }
    }

    /// The path written as `s`, split into components as
    /// `Path::components` does.
    pub fn parse(s: &str) -> (r: FsPath)
        ensures
            r@ == parse_spec(s@),
            r.written() == Some(s@),
    {
        let n = s.unicode_len();
        let rooted = n > 0 && s.get_char(0) == '/';
        let mut comps: Vec<String> = Vec::new();
        if rooted {
            let mut root = String::new();
            push_char(&mut root, '/');
            comps.push(root);
            proof {
                lemma_views_push(Seq::empty(), root);
            }
        }
        let ghost prefix: Seq<Seq<char>> = if rooted {
            seq![root_comp()]
        } else {
            Seq::empty()
        };
        assert(string_views(comps@) =~= prefix);
        let mut cur = String::new();
        let mut seg_index: usize = 0;
        let mut i: usize = 0;
        assert(s@.take(0) =~= Seq::<char>::empty());
        while i < n
            invariant
                n == s@.len(),
                i <= n,
                seg_index <= i,
                segments(s@.take(i as int)).len() == seg_index + 1,
                cur@ == segments(s@.take(i as int)).last(),
                string_views(comps@) == prefix + kept_segments(
                    segments(s@.take(i as int)),
                    seg_index as int,
                ),
            decreases n - i,
        {
            let c = s.get_char(i);
            let ghost segs = segments(s@.take(i as int));
            assert(s@.take(i + 1).drop_last() =~= s@.take(i as int));
            assert(s@.take(i + 1).last() == c);
            let ghost segs2 = segments(s@.take(i + 1));
            if c == '/' {
                let keep = cur.unicode_len() > 0 && !(same_text(cur.as_str(), ".")
                    && seg_index != 0);
                proof {
                    reveal_strlit(".");
                    assert(".".view() =~= cur_comp());
                    assert(segs2 == segs.push(Seq::empty()));
                    lemma_kept_agree(segs, segs2, seg_index as int);
                    assert(segs2[seg_index as int] == cur@);
                    assert(keep == keeps_segment(cur@, seg_index as int));
                }
                if keep {
                    let ghost before = comps@;
                    comps.push(cur);
                    proof {
                        lemma_views_push(before, cur);
                        assert(prefix + kept_segments(segs2, seg_index + 1) =~= (prefix
                            + kept_segments(segs2, seg_index as int)).push(cur@));
                    }
                }
                cur = String::new();
                seg_index = seg_index + 1;
            } else {
                let ghost old_cur = cur@;
                push_char(&mut cur, c);
                proof {
                    assert(segs2 == segs.update(seg_index as int, old_cur.push(c)));
                    lemma_kept_agree(segs, segs2, seg_index as int);
                }
            }
            i = i + 1;
        }
        assert(s@.take(n as int) =~= s@);
        let ghost segs = segments(s@);
        let keep = cur.unicode_len() > 0 && !(same_text(cur.as_str(), ".") && seg_index != 0);
        proof {
            reveal_strlit(".");
            assert(".".view() =~= cur_comp());
            assert(keep == keeps_segment(cur@, seg_index as int));
        }
        if keep {
            let ghost before = comps@;
            comps.push(cur);
            proof {
                lemma_views_push(before, cur);
                assert(prefix + kept_segments(segs, seg_index + 1) =~= (prefix + kept_segments(
                    segs,
                    seg_index as int,
                )).push(cur@));
            }
        }
        let r = FsPath { comps, text: Some(owned(s)) };
        proof {
            if rooted {
                assert(s@[0] == '/');
            }
        }
        r
    }

    /// The components of this path.
    pub fn components(&self) -> (r: &Vec<String>)
        ensures
            string_views(r@) == self@,
    {
        &self.comps
    }

    /// The path made of the given components, taken as they are.
    pub fn from_components(comps: Vec<String>) -> (r: FsPath)
        ensures
            r@ == string_views(comps@),
            r.written() is None,
    {
        FsPath { comps, text: None }
    }

    /// How the path is written out, as `Path::display`: its text when known,
    /// else its components.
    pub fn display(&self) -> (r: String)
        ensures
            r@ == self.shown(),
    {
        match &self.text {
            Some(t) => t.clone(),
            None => self.components_text(),
        }
    }

    fn components_text(&self) -> (r: String)
        ensures
            r@ == display_spec(self@),
    {
        let n = self.comps.len();
        let mut out = String::new();
        let mut start: usize = 0;
        let absolute = self.is_absolute();
        if absolute {
            push_char(&mut out, '/');
            start = 1;
        }
        let ghost p = self@;
        let ghost body = if absolute {
            p.skip(1)
        } else {
            p
        };
        let ghost lead: Seq<char> = if absolute {
            seq!['/']
        } else {
            Seq::empty()
        };
        assert(out@ =~= lead + join_with_slash(body.take(0)));
        let mut i: usize = start;
        while i < n
            invariant
                n == self.comps@.len(),
                p == self@,
                p.len() == n,
                start <= i <= n,
                body =~= p.skip(start as int),
                out@ == lead + join_with_slash(body.take(i - start)),
                p == string_views(self.comps@),
            decreases n - i,
        {
            let k: usize = i - start;
            assert(body.take(k + 1).drop_last() =~= body.take(k as int));
            assert(body.take(k + 1).last() == self.comps@[i as int]@);
            if i > start {
                push_char(&mut out, '/');
            }
            let ghost before = out@;
            push_str(&mut out, self.comps[i].as_str());
            proof {
                if k == 0 {
                    assert(body.take(1) =~= seq![body[0]]);
                    assert(out@ =~= lead + join_with_slash(body.take(k + 1)));
                } else {
                    assert(out@ =~= lead + join_with_slash(body.take(k + 1)));
                }
            }
            i = i + 1;
        }
        assert(body.take(n - start) =~= body);
        out
    }

    /// Whether the path starts at the root.
    pub fn is_absolute(&self) -> (r: bool)
        ensures
            r == is_absolute_spec(self@),
    {
        if self.comps.len() == 0 {
            return false;
        }
        let r = same_text(self.comps[0].as_str(), "/");
        proof {
            reveal_strlit("/");
            assert("/".view() =~= root_comp());
        }
        r
    }

    /// Whether the two paths have the same components.
    pub fn same_as(&self, other: &FsPath) -> (r: bool)
        ensures
            r == (self@ == other@),
    {
        let n = self.comps.len();
        if n != other.comps.len() {
            assert(self@.len() != other@.len());
            return false;
        }
        let mut i: usize = 0;
        while i < n
            invariant
                n == self.comps@.len(),
                n == other.comps@.len(),
                i <= n,
                forall|j: int| 0 <= j < i ==> self@[j] == other@[j],
            decreases n - i,
        {
            if self.comps[i] != other.comps[i] {
                assert(self@[i as int] != other@[i as int]);
                return false;
            }
            i = i + 1;
        }
        assert(self@ =~= other@);
        true
    }

    /// Whether the components of `base` are a prefix of those of this path.
    pub fn starts_with(&self, base: &FsPath) -> (r: bool)
        ensures
            r == starts_with_spec(self@, base@),
    {
        let n = base.comps.len();
        if n > self.comps.len() {
            return false;
        }
        let mut i: usize = 0;
        while i < n
            invariant
                n == base.comps@.len(),
                n <= self.comps@.len(),
                i <= n,
                forall|j: int| 0 <= j < i ==> base@[j] == self@[j],
            decreases n - i,
        {
            if self.comps[i] != base.comps[i] {
                assert(self@[i as int] != base@[i as int]);
                return false;
            }
            i = i + 1;
        }
        true
    }

    /// The path without its last component, as `Path::parent`.
    pub fn parent(&self) -> (r: Option<FsPath>)
        ensures
            r matches Some(q) ==> parent_spec(self@) == Some(q@),
            r is None ==> parent_spec(self@) is None,
    {
        let n = self.comps.len();
        if n == 0 {
            return None;
        }
        let last_is_root = same_text(self.comps[n - 1].as_str(), "/");
        proof {
            reveal_strlit("/");
            assert("/".view() =~= root_comp());
        }
        if last_is_root {
            return None;
        }
        let mut comps: Vec<String> = Vec::new();
        let mut i: usize = 0;
        while i < n - 1
            invariant
                n == self.comps@.len(),
                n >= 1,
                i <= n - 1,
                string_views(comps@) == self@.take(i as int),
            decreases n - 1 - i,
        {
            let ghost before = comps@;
            comps.push(self.comps[i].clone());
            proof {
                lemma_views_push(before, self.comps@[i as int]);
                assert(self@.take(i + 1) =~= self@.take(i as int).push(self@[i as int]));
            }
            i = i + 1;
        }
        assert(self@.take(n - 1) =~= self@.drop_last());
        Some(FsPath { comps, text: None })
    }

    /// The last component when it is a name, as `Path::file_name`.
    pub fn file_name(&self) -> (r: Option<String>)
        ensures
            r matches Some(name) ==> file_name_spec(self@) == Some(name@),
            r is None ==> file_name_spec(self@) is None,
    {
        let n = self.comps.len();
        if n == 0 {
            return None;
        }
        let last = self.comps[n - 1].as_str();
        let special = same_text(last, "/") || same_text(last, ".") || same_text(last, "..");
        proof {
            reveal_strlit("/");
            reveal_strlit(".");
            reveal_strlit("..");
            assert("/".view() =~= root_comp());
            assert(".".view() =~= cur_comp());
            assert("..".view() =~= parent_comp());
        }
        if special {
            None
        } else {
            Some(self.comps[n - 1].clone())
        }
    }

    /// This path followed by `other`, as `Path::join`; written out, it is
    /// `other` when that is absolute, else the two texts joined by `pushed`.
    pub fn join(&self, other: &FsPath) -> (r: FsPath)
        ensures
            r@ == join_spec(self@, other@),
            is_absolute_spec(other@) ==> r.written() == other.written(),
            !is_absolute_spec(other@) ==> r.written() == Some(pushed(self.shown(), other.shown())),
    {
        if other.is_absolute() {
            return other.duplicate();
        }
        let mut skip: usize = 0;
        if self.comps.len() > 0 && other.comps.len() > 0 {
            let dot = same_text(other.comps[0].as_str(), ".");
            proof {
                reveal_strlit(".");
                assert(".".view() =~= cur_comp());
            }
            if dot {
                skip = 1;
            }
        }
        let mut comps = self.comps.clone();
        assert(comps@ =~= self.comps@);
        let n = other.comps.len();
        let mut i: usize = skip;
        while i < n
            invariant
                n == other.comps@.len(),
                skip <= i <= n,
                skip <= 1,
                skip <= n,
                string_views(comps@) == self@ + other@.subrange(skip as int, i as int),
            decreases n - i,
        {
            let ghost before = comps@;
            comps.push(other.comps[i].clone());
            proof {
                lemma_views_push(before, other.comps@[i as int]);
                assert(self@ + other@.subrange(skip as int, i + 1) =~= (self@ + other@.subrange(
                    skip as int,
                    i as int,
                )).push(other@[i as int]));
            }
            i = i + 1;
        }
        proof {
            if skip == 1 {
                assert(other@.subrange(1, n as int) =~= other@.drop_first());
            } else {
                assert(other@.subrange(0, n as int) =~= other@);
            }
        }
        let mut text = self.display();
        let tail = other.display();
        let len = text.as_str().unicode_len();
        if len > 0 && text.as_str().get_char(len - 1) != '/' {
            push_char(&mut text, '/');
        }
        push_str(&mut text, tail.as_str());
        FsPath { comps, text: Some(text) }
    }

    /// This path followed by the single component `name`, as
    /// `Path::join(name)` for a name without separators.
    pub fn child(&self, name: &str) -> (r: FsPath)
        ensures
            r@ == join_spec(self@, seq![name@]),
            name@ != root_comp() ==> r.written() == Some(pushed(self.shown(), name@)),
    {
        let mut comps: Vec<String> = Vec::new();
        let part = owned(name);
        comps.push(part);
        let other = FsPath { comps, text: Some(owned(name)) };
        proof {
            lemma_views_push(Seq::empty(), part);
            assert(other@ =~= seq![name@]);
        }
        self.join(&other)
    }

    /// Whether this path comes before `other` in `Path`'s order.
    pub fn less_than(&self, other: &FsPath) -> (r: bool)
        ensures
            r == path_lt(self@, other@),
    {
        let na = self.comps.len();
        let nb = other.comps.len();
        let mut i: usize = 0;
        assert(self@.skip(0) =~= self@);
        assert(other@.skip(0) =~= other@);
        while i < na && i < nb
            invariant
                na == self@.len(),
                nb == other@.len(),
                i <= na,
                i <= nb,
                path_lt(self@, other@) == path_lt(self@.skip(i as int), other@.skip(i as int)),
            decreases na - i,
        {
            let a = self.comps[i].as_str();
            let b = other.comps[i].as_str();
            assert(self@.skip(i as int)[0] == a@);
            assert(other@.skip(i as int)[0] == b@);
            if !same_text(a, b) {
                return comp_less_than(a, b);
            }
            assert(self@.skip(i as int).drop_first() =~= self@.skip(i + 1));
            assert(other@.skip(i as int).drop_first() =~= other@.skip(i + 1));
            i = i + 1;
        }
        i < nb
    }
}

fn comp_rank_of(c: &str) -> (r: u8)
    ensures
        r as int == comp_rank(c@),
{
    proof {
        reveal_strlit("/");
        reveal_strlit(".");
        reveal_strlit("..");
        assert("/".view() =~= root_comp());
        assert(".".view() =~= cur_comp());
        assert("..".view() =~= parent_comp());
    }
    if same_text(c, "/") {
        0
    } else if same_text(c, ".") {
        1
    } else if same_text(c, "..") {
        2
    } else {
        3
    }
}

fn comp_less_than(a: &str, b: &str) -> (r: bool)
    ensures
        r == comp_lt(a@, b@),
{
    let ra = comp_rank_of(a);
    let rb = comp_rank_of(b);
    if ra != rb {
        ra < rb
    } else {
        ra == 3 && text_lt(a, b)
    }
}


/// The order on components is irreflexive.
proof fn lemma_comp_lt_irreflexive(a: Seq<char>)
    ensures
        !comp_lt(a, a),
{
    crate::text::lemma_chars_lt_irreflexive(a);
}

/// The order on components is transitive.
proof fn lemma_comp_lt_transitive(a: Seq<char>, b: Seq<char>, c: Seq<char>)
    requires
        comp_lt(a, b),
        comp_lt(b, c),
    ensures
        comp_lt(a, c),
{
    if comp_rank(a) == 3 && comp_rank(b) == 3 && comp_rank(c) == 3 {
        crate::text::lemma_chars_lt_transitive(a, b, c);
    }
}

/// The order on components is total on distinct components.
proof fn lemma_comp_lt_total(a: Seq<char>, b: Seq<char>)
    requires
        a != b,
    ensures
        comp_lt(a, b) || comp_lt(b, a),
{
    if comp_rank(a) == comp_rank(b) && comp_rank(a) == 3 {
        crate::text::lemma_chars_lt_total(a, b);
    }
}

/// The order on paths is irreflexive.
pub proof fn lemma_path_lt_irreflexive(a: Seq<Seq<char>>)
    ensures
        !path_lt(a, a),
    decreases a.len(),
{
    if a.len() > 0 {
        lemma_path_lt_irreflexive(a.drop_first());
    }
}

/// The order on paths is transitive.
pub proof fn lemma_path_lt_transitive(a: Seq<Seq<char>>, b: Seq<Seq<char>>, c: Seq<Seq<char>>)
    requires
        path_lt(a, b),
        path_lt(b, c),
    ensures
        path_lt(a, c),
    decreases a.len(),
{
    if a.len() > 0 && b.len() > 0 && c.len() > 0 {
        if a[0] == b[0] && b[0] == c[0] {
            lemma_path_lt_transitive(a.drop_first(), b.drop_first(), c.drop_first());
        } else if a[0] != b[0] && b[0] != c[0] {
            lemma_comp_lt_transitive(a[0], b[0], c[0]);
            if a[0] == c[0] {
                lemma_comp_lt_irreflexive(a[0]);
            }
        }
    }
}

/// The order on paths is total on distinct paths.
pub proof fn lemma_path_lt_total(a: Seq<Seq<char>>, b: Seq<Seq<char>>)
    requires
        a != b,
    ensures
        path_lt(a, b) || path_lt(b, a),
    decreases a.len(),
{
    if a.len() > 0 && b.len() > 0 {
        if a[0] == b[0] {
            if a.drop_first() == b.drop_first() {
                assert(a =~= seq![a[0]] + a.drop_first());
                assert(b =~= seq![b[0]] + b.drop_first());
            }
            lemma_path_lt_total(a.drop_first(), b.drop_first());
        } else {
            lemma_comp_lt_total(a[0], b[0]);
        }
    } else if a.len() == 0 && b.len() == 0 {
        assert(a =~= b);
    }
}

/// `path_lt` is asymmetric.
pub proof fn lemma_path_lt_asymmetric(a: Seq<Seq<char>>, b: Seq<Seq<char>>)
    requires
        path_lt(a, b),
    ensures
        !path_lt(b, a),
{
    if path_lt(b, a) {
        lemma_path_lt_transitive(a, b, a);
        lemma_path_lt_irreflexive(a);
    }
}


/// Whether a sequence of components is one that parsing can give: after an
/// optional root, nonempty names without `/`, with `.` only first in a
/// relative path.
pub open spec fn path_wf(p: Seq<Seq<char>>) -> bool {
    forall|i: int|
        #![trigger p[i]]
        0 <= i < p.len() && !(i == 0 && is_absolute_spec(p)) ==> {
            &&& p[i].len() > 0
            &&& !p[i].contains('/')
            &&& (p[i] == cur_comp() ==> i == 0)
        }
}

/// A segment count is never zero.
proof fn lemma_segments_len(s: Seq<char>)
    ensures
        segments(s).len() >= 1,
    decreases s.len(),
{
    if s.len() > 0 {
        lemma_segments_len(s.drop_last());
    }
}

/// Appending characters other than `/` extends the last segment.
proof fn lemma_segments_append(w: Seq<char>, y: Seq<char>)
    requires
        !y.contains('/'),
    ensures
        segments(w + y) == segments(w).update(
            segments(w).len() - 1,
            segments(w).last() + y,
        ),
    decreases y.len(),
{
    lemma_segments_len(w);
    if y.len() == 0 {
        assert(w + y =~= w);
        assert(segments(w).last() + y =~= segments(w).last());
        assert(segments(w).update(segments(w).len() - 1, segments(w).last()) =~= segments(w));
    } else {
        let y0 = y.drop_last();
        assert(!y0.contains('/')) by {
            if y0.contains('/') {
                let k = choose|k: int| 0 <= k < y0.len() && y0[k] == '/';
                assert(y[k] == '/');
            }
        }
        lemma_segments_append(w, y0);
        assert((w + y).drop_last() =~= w + y0);
        assert((w + y).last() == y.last());
        assert(y[y.len() - 1] != '/');
        lemma_segments_len(w + y0);
        let prev = segments(w + y0);
        assert(prev.last() == segments(w).last() + y0);
        assert(prev.last().push(y.last()) =~= segments(w).last() + y);
        assert(segments(w + y) =~= segments(w).update(segments(w).len() - 1, segments(w).last() + y));
    }
}

/// Splitting parts that hold no `/` after joining them gives them back.
proof fn lemma_segments_join(parts: Seq<Seq<char>>)
    requires
        parts.len() >= 1,
        forall|i: int| 0 <= i < parts.len() ==> !(#[trigger] parts[i]).contains('/'),
    ensures
        segments(join_with_slash(parts)) == parts,
    decreases parts.len(),
{
    if parts.len() == 1 {
        lemma_segments_append(Seq::empty(), parts[0]);
        assert(Seq::<char>::empty() + parts[0] =~= parts[0]);
        assert(segments(Seq::<char>::empty()) =~= seq![Seq::<char>::empty()]);
        assert(Seq::<char>::empty() + parts[0] =~= parts[0]);
        assert(segments(parts[0]) =~= parts);
    } else {
        let init = parts.drop_last();
        assert forall|i: int| 0 <= i < init.len() implies !(#[trigger] init[i]).contains('/') by {
            assert(init[i] == parts[i]);
        }
        lemma_segments_join(init);
        let w = join_with_slash(init) + seq!['/'];
        assert(w.drop_last() =~= join_with_slash(init));
        assert(segments(w) == init.push(Seq::empty()));
        assert(!parts.last().contains('/')) by {
            assert(parts[parts.len() - 1] == parts.last());
        }
        lemma_segments_append(w, parts.last());
        assert(Seq::<char>::empty() + parts.last() =~= parts.last());
        assert(segments(w + parts.last()) =~= parts);
    }
}

/// Joining with an empty first part puts a `/` in front.
proof fn lemma_join_leading_empty(rest: Seq<Seq<char>>)
    requires
        rest.len() >= 1,
    ensures
        join_with_slash(seq![Seq::<char>::empty()] + rest) == seq!['/'] + join_with_slash(rest),
    decreases rest.len(),
{
    let all = seq![Seq::<char>::empty()] + rest;
    if rest.len() == 1 {
        let e = Seq::<char>::empty();
        assert(all.drop_last() =~= seq![e]);
        assert(all.last() == rest[0]);
        assert(join_with_slash(seq![e]) == e);
        assert(join_with_slash(all) == join_with_slash(seq![e]) + seq!['/'] + rest[0]);
        assert(join_with_slash(rest) == rest[0]);
        assert(join_with_slash(all) =~= seq!['/'] + join_with_slash(rest));
    } else {
        lemma_join_leading_empty(rest.drop_last());
        assert(all.drop_last() =~= seq![Seq::<char>::empty()] + rest.drop_last());
        assert(all.last() == rest.last());
        assert(join_with_slash(all) =~= seq!['/'] + join_with_slash(rest));
    }
}

/// The first part of a join starts it.
proof fn lemma_join_starts(parts: Seq<Seq<char>>)
    requires
        parts.len() >= 1,
    ensures
        parts[0].is_prefix_of(join_with_slash(parts)),
    decreases parts.len(),
{
    if parts.len() > 1 {
        lemma_join_starts(parts.drop_last());
        assert(parts.drop_last()[0] == parts[0]);
    }
}

/// The segments that are kept, when every segment past the first `skip`
/// ones is a component.
proof fn lemma_kept_all(segs: Seq<Seq<char>>, n: int, first: int)
    requires
        0 <= first <= 1,
        first <= n <= segs.len(),
        forall|i: int| 0 <= i < first ==> !keeps_segment(#[trigger] segs[i], i),
        forall|i: int| first <= i < segs.len() ==> keeps_segment(#[trigger] segs[i], i),
    ensures
        kept_segments(segs, n) == segs.subrange(first, n),
    decreases n,
{
    if n > first {
        lemma_kept_all(segs, n - 1, first);
        assert(keeps_segment(segs[n - 1], n - 1));
        assert(segs.subrange(first, n - 1).push(segs[n - 1]) =~= segs.subrange(first, n));
    } else {
        if n == 1 && first == 1 {
            assert(!keeps_segment(segs[0], 0));
            assert(kept_segments(segs, 0) =~= Seq::<Seq<char>>::empty());
        }
        assert(segs.subrange(first, n) =~= Seq::<Seq<char>>::empty());
    }
}

/// Parsing what a well-formed path displays gives the path back.
pub proof fn lemma_display_parse(p: Seq<Seq<char>>)
    requires
        path_wf(p),
    ensures
        parse_spec(display_spec(p)) == p,
{
    if is_absolute_spec(p) {
        let body = p.skip(1);
        let parts = seq![Seq::<char>::empty()] + body;
        assert forall|i: int| 0 <= i < parts.len() implies !(#[trigger] parts[i]).contains('/') by {
            if i > 0 {
                assert(parts[i] == p[i]);
            }
        }
        if body.len() == 0 {
            let e = Seq::<char>::empty();
            let slash = seq!['/'];
            assert(join_with_slash(body) == e);
            assert(display_spec(p) =~= slash);
            assert(slash.drop_last() =~= e);
            assert(slash.last() == '/');
            assert(segments(e) == seq![e]);
            assert(segments(slash) == seq![e].push(e));
            let segs = segments(slash);
            assert(segs.len() == 2);
            assert(!keeps_segment(segs[0], 0));
            assert(!keeps_segment(segs[1], 1));
            assert(kept_segments(segs, 0) == Seq::<Seq<char>>::empty());
            assert(kept_segments(segs, 1) == Seq::<Seq<char>>::empty());
            assert(kept_segments(segs, 2) == Seq::<Seq<char>>::empty());
            assert(p =~= seq![root_comp()]);
        } else {
            lemma_join_leading_empty(body);
            lemma_segments_join(parts);
            let d = display_spec(p);
            assert(d == join_with_slash(parts));
            assert forall|i: int| 1 <= i < parts.len() implies keeps_segment(#[trigger] parts[i], i) by {
                assert(parts[i] == p[i]);
            }
            lemma_kept_all(parts, parts.len() as int, 1);
            assert(parts.subrange(1, parts.len() as int) =~= body);
            assert(d[0] == '/');
            assert(seq![root_comp()] + body =~= p);
        }
    } else {
        if p.len() == 0 {
            let e = Seq::<char>::empty();
            assert(display_spec(p) =~= e);
            assert(segments(e) == seq![e]);
            assert(!keeps_segment(segments(e)[0], 0));
            assert(kept_segments(segments(e), 0) == Seq::<Seq<char>>::empty());
            assert(kept_segments(segments(e), 1) == Seq::<Seq<char>>::empty());
            assert(p =~= Seq::<Seq<char>>::empty());
        } else {
            assert forall|i: int| 0 <= i < p.len() implies !(#[trigger] p[i]).contains('/') by {
                assert(!(i == 0 && is_absolute_spec(p)));
            }
            lemma_segments_join(p);
            assert forall|i: int| 0 <= i < p.len() implies keeps_segment(#[trigger] p[i], i) by {
                assert(!(i == 0 && is_absolute_spec(p)));
            }
            lemma_kept_all(p, p.len() as int, 0);
            assert(p.subrange(0, p.len() as int) =~= p);
            lemma_join_starts(p);
            assert(p[0].len() > 0);
            assert(display_spec(p)[0] == p[0][0]);
            assert(p[0][0] != '/') by {
                assert(!(0 == 0 && is_absolute_spec(p)));
            }
        }
    }
}


/// No segment holds a `/`.
proof fn lemma_segments_no_slash(s: Seq<char>)
    ensures
        forall|i: int| 0 <= i < segments(s).len() ==> !(#[trigger] segments(s)[i]).contains('/'),
    decreases s.len(),
{
    lemma_segments_len(s);
    if s.len() > 0 {
        let prev = segments(s.drop_last());
        lemma_segments_no_slash(s.drop_last());
        lemma_segments_len(s.drop_last());
        if s.last() != '/' {
            let grown = prev.last().push(s.last());
            assert(!grown.contains('/')) by {
                if grown.contains('/') {
                    let k = choose|k: int| 0 <= k < grown.len() && grown[k] == '/';
                    if k < prev.last().len() {
                        assert(prev[prev.len() - 1][k] == '/');
                        assert(prev[prev.len() - 1].contains('/'));
                    }
                }
            }
            assert forall|i: int| 0 <= i < segments(s).len() implies !(#[trigger] segments(s)[i]).contains('/') by {
                if i < prev.len() - 1 {
                    assert(segments(s)[i] == prev[i]);
                }
            }
        } else {
            assert forall|i: int| 0 <= i < segments(s).len() implies !(#[trigger] segments(s)[i]).contains('/') by {
                if i < prev.len() {
                    assert(segments(s)[i] == prev[i]);
                } else {
                    assert(segments(s)[i] == Seq::<char>::empty());
                }
            }
        }
    }
}

/// A string that starts with `/` has an empty first segment and at least
/// two segments.
proof fn lemma_segments_rooted(s: Seq<char>)
    requires
        s.len() > 0,
        s[0] == '/',
    ensures
        segments(s).len() >= 2,
        segments(s)[0] == Seq::<char>::empty(),
    decreases s.len(),
{
    let e = Seq::<char>::empty();
    if s.len() == 1 {
        assert(s.drop_last() =~= e);
        assert(segments(e) == seq![e]);
        assert(s.last() == '/');
    } else {
        assert(s.drop_last()[0] == '/');
        lemma_segments_rooted(s.drop_last());
    }
}

/// What the kept segments are like: names without `/`, with `.` only
/// first and only when the first segment is `.`.
proof fn lemma_kept_shape(segs: Seq<Seq<char>>, n: int)
    requires
        0 <= n <= segs.len(),
        forall|i: int| 0 <= i < segs.len() ==> !(#[trigger] segs[i]).contains('/'),
    ensures
        forall|j: int|
            #![trigger kept_segments(segs, n)[j]]
            0 <= j < kept_segments(segs, n).len() ==> {
                &&& kept_segments(segs, n)[j].len() > 0
                &&& !kept_segments(segs, n)[j].contains('/')
                &&& (kept_segments(segs, n)[j] == cur_comp() ==> j == 0 && segs[0] == cur_comp())
            },
    decreases n,
{
    if n > 0 {
        lemma_kept_shape(segs, n - 1);
        let prev = kept_segments(segs, n - 1);
        let k = kept_segments(segs, n);
        if keeps_segment(segs[n - 1], n - 1) {
            if n - 1 == 0 {
                assert(prev =~= Seq::<Seq<char>>::empty());
            }
            assert forall|j: int| 0 <= j < k.len() implies {
                &&& (#[trigger] k[j]).len() > 0
                &&& !k[j].contains('/')
                &&& (k[j] == cur_comp() ==> j == 0 && segs[0] == cur_comp())
            } by {
                if j < prev.len() {
                    assert(k[j] == prev[j]);
                } else {
                    assert(k[j] == segs[n - 1]);
                }
            }
        }
    }
}

/// Every path that parsing gives is well formed.
pub proof fn lemma_parse_wf(s: Seq<char>)
    ensures
        path_wf(parse_spec(s)),
{
    let segs = segments(s);
    lemma_segments_no_slash(s);
    lemma_kept_shape(segs, segs.len() as int);
    let body = kept_segments(segs, segs.len() as int);
    let p = parse_spec(s);
    if s.len() > 0 && s[0] == '/' {
        lemma_segments_rooted(s);
        assert(segs[0] != cur_comp()) by {
            assert(segs[0].len() == 0);
        }
        assert(is_absolute_spec(p));
        assert forall|i: int|
            #![trigger p[i]]
            0 <= i < p.len() && !(i == 0 && is_absolute_spec(p)) implies {
                &&& p[i].len() > 0
                &&& !p[i].contains('/')
                &&& (p[i] == cur_comp() ==> i == 0)
            } by {
            assert(p[i] == body[i - 1]);
        }
    } else {
        if body.len() > 0 {
            assert(body[0] != root_comp()) by {
                assert(root_comp()[0] == '/');
                if body[0] == root_comp() {
                    assert(body[0].contains('/'));
                }
            }
        }
        assert(!is_absolute_spec(p));
    }
}

} // verus!
