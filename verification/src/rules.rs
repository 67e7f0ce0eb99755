//! Rules that recognise disposable directories, and the set of them that a
//! scan applies.
use vstd::prelude::*;
use vstd::string::*;

use crate::config::{resolve_protected_path, resolve_protected_spec, Config, CustomRuleConfig};
use crate::domain::ArtifactKind;
use crate::fspath::{file_name_spec, parent_spec, starts_with_spec, string_views, FsPath};
use crate::text::{owned, same_text, to_lowercase, unicode_lowercase};

verus! {

/// How a rule decides that a directory matches.
#[derive(Clone, Copy, Debug, PartialEq, Eq, Structural)]
pub enum RuleMatchKind {
    /// The directory name alone decides.
    Exact,
    /// The name must match and a marker file must exist in an ancestor.
    GenericWithMarkers,
}

/// A rule: directories named `directory_name` are artifacts of `kind`,
/// provided (when `required_markers` is not empty) that an ancestor holds one
/// of the markers. A marker `*.ext` stands for any file with that extension.
#[derive(Clone, Debug)]
pub struct Rule {
    pub name: String,
    pub directory_name: String,
    pub kind: ArtifactKind,
    pub ecosystem: String,
    pub required_markers: Vec<String>,
    pub enabled: bool,
    pub match_kind: RuleMatchKind,
}

/// The plain value of a rule.
pub struct RuleView {
    pub name: Seq<char>,
    pub directory_name: Seq<char>,
    pub kind: ArtifactKind,
    pub ecosystem: Seq<char>,
    pub required_markers: Seq<Seq<char>>,
    pub enabled: bool,
    pub match_kind: RuleMatchKind,
}

impl View for Rule {
    type V = RuleView;

    open spec fn view(&self) -> RuleView {
        RuleView {
            name: self.name@,
            directory_name: self.directory_name@,
            kind: self.kind,
            ecosystem: self.ecosystem@,
            required_markers: string_views(self.required_markers@),
            enabled: self.enabled,
            match_kind: self.match_kind,
        }
    }
}

/// The views of a sequence of rules.
pub open spec fn rule_views(rules: Seq<Rule>) -> Seq<RuleView> {
    rules.map_values(|r: Rule| r@)
}

impl Rule {
    /// A copy of this rule.
    pub fn duplicate(&self) -> (r: Rule)
        ensures
            r@ == self@,
    {
        let markers = self.required_markers.clone();
        assert(string_views(markers@) =~= string_views(self.required_markers@));
        Rule {
            name: self.name.clone(),
            directory_name: self.directory_name.clone(),
            kind: self.kind,
            ecosystem: self.ecosystem.clone(),
            required_markers: markers,
            enabled: self.enabled,
            match_kind: self.match_kind,
        }
    }
}

/// The rules of a scan, and the paths it must not enter.
#[derive(Clone, Debug)]
pub struct RuleSet {
    rules: Vec<Rule>,
    protected_paths: Vec<FsPath>,
}

/// The plain value of a rule set.
pub struct RuleSetView {
    pub rules: Seq<RuleView>,
    pub protected_paths: Seq<Seq<Seq<char>>>,
}

impl View for RuleSet {
    type V = RuleSetView;

    closed spec fn view(&self) -> RuleSetView {
        RuleSetView {
            rules: rule_views(self.rules@),
            protected_paths: self.protected_paths@.map_values(|p: FsPath| p@),
        }
    }
}

/// A rule that matched a directory, with the project the directory belongs
/// to.
#[derive(Clone, Debug)]
pub struct RuleMatch {
    pub rule: Rule,
    pub project_root: Option<FsPath>,
}

/// A rule that matches by name alone.
pub open spec fn exact_view(
    name: Seq<char>,
    dir: Seq<char>,
    kind: ArtifactKind,
    ecosystem: Seq<char>,
) -> RuleView {
    RuleView {
        name,
        directory_name: dir,
        kind,
        ecosystem,
        required_markers: Seq::empty(),
        enabled: true,
        match_kind: RuleMatchKind::Exact,
    }
}

/// A rule that needs a marker in an ancestor.
pub open spec fn generic_view(
    name: Seq<char>,
    dir: Seq<char>,
    kind: ArtifactKind,
    ecosystem: Seq<char>,
    markers: Seq<Seq<char>>,
) -> RuleView {
    RuleView {
        name,
        directory_name: dir,
        kind,
        ecosystem,
        required_markers: markers,
        enabled: true,
        match_kind: RuleMatchKind::GenericWithMarkers,
    }
}

/// The markers of .NET projects.
pub open spec fn dotnet_markers() -> Seq<Seq<char>> {
    seq!["*.csproj"@, "*.fsproj"@, "*.vbproj"@, "*.sln"@]
}

/// The rules that come with the tool, in the order they are tried.
pub open spec fn built_in_rule_views() -> Seq<RuleView> {
    seq![
        exact_view("Node Modules"@, "node_modules"@, ArtifactKind::Dependency, "javascript"@),
        exact_view(".pnpm-store"@, ".pnpm-store"@, ArtifactKind::Cache, "javascript"@),
        exact_view(".yarn"@, ".yarn"@, ArtifactKind::Cache, "javascript"@),
        exact_view(".next"@, ".next"@, ArtifactKind::Build, "javascript"@),
        exact_view(".turbo"@, ".turbo"@, ArtifactKind::Cache, "javascript"@),
        exact_view(".cache"@, ".cache"@, ArtifactKind::Cache, "generic"@),
        exact_view(".parcel-cache"@, ".parcel-cache"@, ArtifactKind::Cache, "javascript"@),
        exact_view("__pycache__"@, "__pycache__"@, ArtifactKind::Cache, "python"@),
        exact_view(".pytest_cache"@, ".pytest_cache"@, ArtifactKind::Cache, "python"@),
        exact_view(".mypy_cache"@, ".mypy_cache"@, ArtifactKind::Cache, "python"@),
        exact_view(".ruff_cache"@, ".ruff_cache"@, ArtifactKind::Cache, "python"@),
        exact_view(".venv"@, ".venv"@, ArtifactKind::Dependency, "python"@),
        exact_view("venv"@, "venv"@, ArtifactKind::Dependency, "python"@),
        exact_view(".tox"@, ".tox"@, ArtifactKind::Build, "python"@),
        exact_view("target"@, "target"@, ArtifactKind::Build, "rust"@),
        exact_view(".gradle"@, ".gradle"@, ArtifactKind::Cache, "java"@),
        exact_view(".dart_tool"@, ".dart_tool"@, ArtifactKind::Cache, "dart"@),
        exact_view(".pub-cache"@, ".pub-cache"@, ArtifactKind::Dependency, "dart"@),
        exact_view(".idea"@, ".idea"@, ArtifactKind::Cache, "generic"@),
        generic_view(
            "Build Output"@,
            "build"@,
            ArtifactKind::Build,
            "generic"@,
            seq![
                "package.json"@,
                "Cargo.toml"@,
                "pyproject.toml"@,
                "requirements.txt"@,
                "build.gradle"@,
                "build.gradle.kts"@,
                "settings.gradle"@,
                "pubspec.yaml"@,
                "go.mod"@,
            ],
        ),
        generic_view(
            "Distribution Output"@,
            "dist"@,
            ArtifactKind::Build,
            "javascript"@,
            seq!["package.json"@],
        ),
        generic_view(".NET bin"@, "bin"@, ArtifactKind::Build, "dotnet"@, dotnet_markers()),
        generic_view(".NET obj"@, "obj"@, ArtifactKind::Build, "dotnet"@, dotnet_markers()),
    ]
}

fn exact(name: &str, dir: &str, kind: ArtifactKind, ecosystem: &str) -> (r: Rule)
    ensures
        r@ == exact_view(name@, dir@, kind, ecosystem@),
{
    let r = Rule {
        name: owned(name),
        directory_name: owned(dir),
        kind,
        ecosystem: owned(ecosystem),
        required_markers: Vec::new(),
        enabled: true,
        match_kind: RuleMatchKind::Exact,
    };
    assert(string_views(r.required_markers@) =~= Seq::<Seq<char>>::empty());
    r
}

fn generic(
    name: &str,
    dir: &str,
    kind: ArtifactKind,
    ecosystem: &str,
    required_markers: &[&str],
) -> (r: Rule)
    ensures
        r@ == generic_view(
            name@,
            dir@,
            kind,
            ecosystem@,
            required_markers@.map_values(|m: &str| m@),
        ),
{
    let mut markers: Vec<String> = Vec::new();
    let n = required_markers.len();
    let mut i: usize = 0;
    while i < n
        invariant
            n == required_markers@.len(),
            i <= n,
            string_views(markers@) == required_markers@.take(i as int).map_values(|m: &str| m@),
        decreases n - i,
    {
        let m = owned(required_markers[i]);
        let ghost before = markers@;
        markers.push(m);
        assert(string_views(markers@) =~= string_views(before).push(m@));
        assert(required_markers@.take(i + 1) =~= required_markers@.take(i as int).push(
            required_markers@[i as int],
        ));
        assert(string_views(markers@) =~= required_markers@.take(i + 1).map_values(
            |m: &str| m@,
        ));
        i = i + 1;
    }
    assert(required_markers@.take(n as int) =~= required_markers@);
    Rule {
        name: owned(name),
        directory_name: owned(dir),
        kind,
        ecosystem: owned(ecosystem),
        required_markers: markers,
        enabled: true,
        match_kind: RuleMatchKind::GenericWithMarkers,
    }
}

/// The rules that come with the tool.
pub fn built_in_rules() -> (r: Vec<Rule>)
    ensures
        rule_views(r@) == built_in_rule_views(),
{
    let mut v: Vec<Rule> = Vec::new();
    v.push(exact("Node Modules", "node_modules", ArtifactKind::Dependency, "javascript"));
    v.push(exact(".pnpm-store", ".pnpm-store", ArtifactKind::Cache, "javascript"));
    v.push(exact(".yarn", ".yarn", ArtifactKind::Cache, "javascript"));
    v.push(exact(".next", ".next", ArtifactKind::Build, "javascript"));
    v.push(exact(".turbo", ".turbo", ArtifactKind::Cache, "javascript"));
    v.push(exact(".cache", ".cache", ArtifactKind::Cache, "generic"));
    v.push(exact(".parcel-cache", ".parcel-cache", ArtifactKind::Cache, "javascript"));
    v.push(exact("__pycache__", "__pycache__", ArtifactKind::Cache, "python"));
    v.push(exact(".pytest_cache", ".pytest_cache", ArtifactKind::Cache, "python"));
    v.push(exact(".mypy_cache", ".mypy_cache", ArtifactKind::Cache, "python"));
    v.push(exact(".ruff_cache", ".ruff_cache", ArtifactKind::Cache, "python"));
    v.push(exact(".venv", ".venv", ArtifactKind::Dependency, "python"));
    v.push(exact("venv", "venv", ArtifactKind::Dependency, "python"));
    v.push(exact(".tox", ".tox", ArtifactKind::Build, "python"));
    v.push(exact("target", "target", ArtifactKind::Build, "rust"));
    v.push(exact(".gradle", ".gradle", ArtifactKind::Cache, "java"));
    v.push(exact(".dart_tool", ".dart_tool", ArtifactKind::Cache, "dart"));
    v.push(exact(".pub-cache", ".pub-cache", ArtifactKind::Dependency, "dart"));
    v.push(exact(".idea", ".idea", ArtifactKind::Cache, "generic"));
    let build_markers: [&str; 9] = [
        "package.json",
        "Cargo.toml",
        "pyproject.toml",
        "requirements.txt",
        "build.gradle",
        "build.gradle.kts",
        "settings.gradle",
        "pubspec.yaml",
        "go.mod",
    ];
    v.push(generic("Build Output", "build", ArtifactKind::Build, "generic", &build_markers));
    let dist_markers: [&str; 1] = ["package.json"];
    v.push(generic("Distribution Output", "dist", ArtifactKind::Build, "javascript", &dist_markers));
    let dotnet: [&str; 4] = ["*.csproj", "*.fsproj", "*.vbproj", "*.sln"];
    v.push(generic(".NET bin", "bin", ArtifactKind::Build, "dotnet", &dotnet));
    v.push(generic(".NET obj", "obj", ArtifactKind::Build, "dotnet", &dotnet));
    assert(build_markers@.map_values(|m: &str| m@) =~= built_in_rule_views()[19].required_markers);
    assert(dist_markers@.map_values(|m: &str| m@) =~= built_in_rule_views()[20].required_markers);
    assert(dotnet@.map_values(|m: &str| m@) =~= dotnet_markers());
    assert(rule_views(v@) =~= built_in_rule_views());
    v
}

/// The rule that a custom rule of the configuration stands for: it matches by
/// name alone when it lists no markers.
pub open spec fn custom_rule_view(c: CustomRuleConfig) -> RuleView {
    RuleView {
        name: c.name@,
        directory_name: c.directory_name@,
        kind: c.kind,
        ecosystem: c.ecosystem@,
        required_markers: string_views(c.required_markers@),
        enabled: c.enabled,
        match_kind: if c.required_markers@.len() == 0 {
            RuleMatchKind::Exact
        } else {
            RuleMatchKind::GenericWithMarkers
        },
    }
}

fn custom_rule(config: &CustomRuleConfig) -> (r: Rule)
    ensures
        r@ == custom_rule_view(*config),
{
    let markers = config.required_markers.clone();
    assert(string_views(markers@) =~= string_views(config.required_markers@));
    Rule {
        name: config.name.clone(),
        directory_name: config.directory_name.clone(),
        kind: config.kind,
        ecosystem: config.ecosystem.clone(),
        required_markers: markers,
        enabled: config.enabled,
        match_kind: if config.required_markers.len() == 0 {
            RuleMatchKind::Exact
        } else {
            RuleMatchKind::GenericWithMarkers
        },
    }
}

/// Whether a built-in rule stays in a rule set: it is enabled and its
/// ecosystem, lowercased, is not one of the disabled ones, lowercased.
pub open spec fn keeps_built_in(disabled: Seq<Seq<char>>, rule: RuleView) -> bool {
    &&& rule.enabled
    &&& !disabled.map_values(|e: Seq<char>| unicode_lowercase(e)).contains(
        unicode_lowercase(rule.ecosystem),
    )
}

/// The first `n` of `rules` that stay.
pub open spec fn kept_built_ins(disabled: Seq<Seq<char>>, rules: Seq<RuleView>, n: int) -> Seq<
    RuleView,
>
    decreases n,
{
    if n <= 0 {
        Seq::empty()
    } else {
        let prev = kept_built_ins(disabled, rules, n - 1);
        if keeps_built_in(disabled, rules[n - 1]) {
            prev.push(rules[n - 1])
        } else {
            prev
        }
    }
}

/// The rules of the rule set made from a configuration: the built-in rules
/// that stay, then every custom rule.
pub open spec fn rules_from_config(c: Config) -> Seq<RuleView> {
    kept_built_ins(
        string_views(c.disabled_ecosystems@),
        built_in_rule_views(),
        built_in_rule_views().len() as int,
    ) + c.custom_rules@.map_values(|r: CustomRuleConfig| custom_rule_view(r))
}

fn contains_text(list: &Vec<String>, item: &String) -> (r: bool)
    ensures
        r == string_views(list@).contains(item@),
{
    let n = list.len();
    let mut i: usize = 0;
    while i < n
        invariant
            n == list@.len(),
            i <= n,
            forall|j: int| 0 <= j < i ==> list@[j]@ != item@,
        decreases n - i,
    {
        if list[i] == *item {
            assert(string_views(list@)[i as int] == item@);
            return true;
        }
        i = i + 1;
    }
    assert(!string_views(list@).contains(item@)) by {
        if string_views(list@).contains(item@) {
            let j = choose|j: int| 0 <= j < n && string_views(list@)[j] == item@;
            assert(list@[j]@ == item@);
        }
    }
    false
}

/// Whether some component sequence starting with a resolved protected path
/// covers `path` for a scan of `root`.
pub open spec fn is_protected_spec(
    protected: Seq<Seq<Seq<char>>>,
    root: Seq<Seq<char>>,
    path: Seq<Seq<char>>,
) -> bool {
    exists|i: int|
        0 <= i < protected.len() && starts_with_spec(
            path,
            #[trigger] resolve_protected_spec(root, protected[i]),
        )
}

/// Marker files found on disk: pairs of a directory and a marker that exists
/// there.
pub struct MarkerFacts {
    present: Vec<(FsPath, String)>,
}

impl View for MarkerFacts {
    type V = Seq<(Seq<Seq<char>>, Seq<char>)>;

    closed spec fn view(&self) -> Seq<(Seq<Seq<char>>, Seq<char>)> {
        self.present@.map_values(|e: (FsPath, String)| (e.0@, e.1@))
    }
}

/// Whether the facts record `marker` in `dir`.
pub open spec fn marker_present(
    facts: Seq<(Seq<Seq<char>>, Seq<char>)>,
    dir: Seq<Seq<char>>,
    marker: Seq<char>,
) -> bool {
    facts.contains((dir, marker))
}

/// Whether the facts record one of `markers` in `dir`.
pub open spec fn any_marker_present(
    facts: Seq<(Seq<Seq<char>>, Seq<char>)>,
    dir: Seq<Seq<char>>,
    markers: Seq<Seq<char>>,
) -> bool {
    exists|j: int| 0 <= j < markers.len() && marker_present(facts, dir, #[trigger] markers[j])
}

impl MarkerFacts {
    /// No markers found.
    pub fn new() -> (r: MarkerFacts)
        ensures
            r@ == Seq::<(Seq<Seq<char>>, Seq<char>)>::empty(),
    {
        let r = MarkerFacts { present: Vec::new() };
        assert(r@ =~= Seq::<(Seq<Seq<char>>, Seq<char>)>::empty());
        r
    }

    /// Records that `marker` exists in `dir`.
    pub fn record(&mut self, dir: FsPath, marker: String)
        ensures
            final(self)@ == old(self)@.push((dir@, marker@)),
    {
        let ghost before = self.present@;
        self.present.push((dir, marker));
        assert(self@ =~= old(self)@.push((dir@, marker@)));
    }

    /// Whether `marker` was recorded in `dir`.
    pub fn has(&self, dir: &FsPath, marker: &String) -> (r: bool)
        ensures
            r == marker_present(self@, dir@, marker@),
    {
        let n = self.present.len();
        let mut i: usize = 0;
        while i < n
            invariant
                n == self.present@.len(),
                i <= n,
                forall|j: int| 0 <= j < i ==> self@[j] != (dir@, marker@),
            decreases n - i,
        {
            let entry = &self.present[i];
            if entry.0.same_as(dir) && entry.1 == *marker {
                assert(self@[i as int] == (dir@, marker@));
                return true;
            }
            i = i + 1;
        }
        assert(!self@.contains((dir@, marker@))) by {
            if self@.contains((dir@, marker@)) {
                let j = choose|j: int| 0 <= j < n && self@[j] == (dir@, marker@);
                assert(false);
            }
        }
        false
    }

    /// Whether one of `markers` was recorded in `dir`.
    pub fn has_any(&self, dir: &FsPath, markers: &Vec<String>) -> (r: bool)
        ensures
            r == any_marker_present(self@, dir@, string_views(markers@)),
    {
        let n = markers.len();
        let mut i: usize = 0;
        while i < n
            invariant
                n == markers@.len(),
                i <= n,
                forall|j: int| 0 <= j < i ==> !marker_present(self@, dir@, markers@[j]@),
            decreases n - i,
        {
            if self.has(dir, &markers[i]) {
                assert(string_views(markers@)[i as int] == markers@[i as int]@);
                return true;
            }
            i = i + 1;
        }
        assert(!any_marker_present(self@, dir@, string_views(markers@))) by {
            if any_marker_present(self@, dir@, string_views(markers@)) {
                let j = choose|j: int|
                    0 <= j < n && marker_present(
                        self@,
                        dir@,
                        #[trigger] string_views(markers@)[j],
                    );
                assert(string_views(markers@)[j] == markers@[j]@);
            }
        }
        false
    }
}

/// The search for a project root among the ancestors of `path`, from
/// `path.take(k)` upwards: the first ancestor within `root` that holds a
/// marker, never going above `root`.
pub open spec fn marker_search(
    path: Seq<Seq<char>>,
    k: int,
    root: Seq<Seq<char>>,
    markers: Seq<Seq<char>>,
    facts: Seq<(Seq<Seq<char>>, Seq<char>)>,
) -> Option<Seq<Seq<char>>>
    decreases k,
{
    let dir = path.take(k);
    if k < 0 || k > path.len() {
        None
    } else if starts_with_spec(dir, root) && any_marker_present(facts, dir, markers) {
        Some(dir)
    } else if dir == root {
        None
    } else if parent_spec(dir) is None {
        None
    } else {
        marker_search(path, k - 1, root, markers, facts)
    }
}

/// The nearest ancestor of `path`, within `root`, that holds one of
/// `markers`.
pub open spec fn marker_ancestor_spec(
    path: Seq<Seq<char>>,
    root: Seq<Seq<char>>,
    markers: Seq<Seq<char>>,
    facts: Seq<(Seq<Seq<char>>, Seq<char>)>,
) -> Option<Seq<Seq<char>>> {
    if parent_spec(path) is None {
        None
    } else {
        marker_search(path, path.len() - 1, root, markers, facts)
    }
}

/// Whether a rule matches `path`, and with which project root: `None` when
/// it does not match, `Some(project_root)` when it does.
pub open spec fn rule_outcome(
    rule: RuleView,
    path: Seq<Seq<char>>,
    root: Seq<Seq<char>>,
    facts: Seq<(Seq<Seq<char>>, Seq<char>)>,
) -> Option<Option<Seq<Seq<char>>>> {
    if file_name_spec(path) != Some(rule.directory_name) {
        None
    } else if rule.required_markers.len() == 0 {
        Some(parent_spec(path))
    } else {
        match marker_ancestor_spec(path, root, rule.required_markers, facts) {
            Some(dir) => Some(Some(dir)),
            None => None,
        }
    }
}

/// The index of the first of `rules`, from `k` on, that matches `path`.
pub open spec fn first_match_from(
    rules: Seq<RuleView>,
    k: int,
    path: Seq<Seq<char>>,
    root: Seq<Seq<char>>,
    facts: Seq<(Seq<Seq<char>>, Seq<char>)>,
) -> Option<int>
    decreases rules.len() - k,
{
    if k < 0 || k >= rules.len() {
        None
    } else if rule_outcome(rules[k], path, root, facts) is Some {
        Some(k)
    } else {
        first_match_from(rules, k + 1, path, root, facts)
    }
}

fn marker_ancestor(path: &FsPath, root: &FsPath, markers: &Vec<String>, facts: &MarkerFacts) -> (r:
    Option<FsPath>)
    ensures
        r matches Some(d) ==> marker_ancestor_spec(path@, root@, string_views(markers@), facts@)
            == Some(d@),
        r is None ==> marker_ancestor_spec(path@, root@, string_views(markers@), facts@) is None,
{
    let ghost m = string_views(markers@);
    let mut current = path.parent();
    let ghost mut k: int = path@.len() - 1;
    while current.is_some()
        invariant
            current matches Some(d) ==> d@ == path@.take(k) && 0 <= k <= path@.len() && k
                < path@.len(),
            current matches Some(_) ==> marker_ancestor_spec(path@, root@, m, facts@)
                == marker_search(path@, k, root@, m, facts@),
            current is None ==> marker_ancestor_spec(path@, root@, m, facts@) is None,
            m == string_views(markers@),
        decreases k + 1,
    {
        let dir = current.unwrap();
        if dir.starts_with(root) && facts.has_any(&dir, markers) {
            return Some(dir);
        }
        if dir.same_as(root) {
            return None;
        }
        let next = dir.parent();
        proof {
            if next.is_some() {
                assert(dir@.drop_last() =~= path@.take(k - 1));
            }
        }
        current = next;
        proof {
            k = k - 1;
        }
    }
    None
}

/// The index of the last `.` in `s`, if any.
pub open spec fn last_dot(s: Seq<char>) -> Option<int>
    decreases s.len(),
{
    if s.len() == 0 {
        None
    } else if s.last() == '.' {
        Some(s.len() - 1)
    } else {
        last_dot(s.drop_last())
    }
}

/// What `Path::extension` gives for a file named `name`: the text after its
/// last `.`, unless the name is `..`, has no `.`, or has its only leading
/// `.` first (as `.gitignore`).
pub open spec fn extension_spec(name: Seq<char>) -> Option<Seq<char>> {
    if name == seq!['.', '.'] {
        None
    } else {
        match last_dot(name) {
            None => None,
            Some(i) => if i == 0 {
                None
            } else {
                Some(name.skip(i + 1))
            },
        }
    }
}

/// Whether a file named `file_name` has the extension `ext`.
pub fn has_extension(file_name: &str, ext: &str) -> (r: bool)
    ensures
        r == (extension_spec(file_name@) == Some(ext@)),
{
    let n = file_name.unicode_len();
    if n == 2 && file_name.get_char(0) == '.' && file_name.get_char(1) == '.' {
        assert(file_name@ =~= seq!['.', '.']);
        return false;
    }
    let mut found: Option<usize> = None;
    let mut i: usize = 0;
    while i < n
        invariant
            n == file_name@.len(),
            i <= n,
            match found {
                Some(k) => last_dot(file_name@.take(i as int)) == Some(k as int) && k < i,
                None => last_dot(file_name@.take(i as int)) is None,
            },
        decreases n - i,
    {
        assert(file_name@.take(i + 1).drop_last() =~= file_name@.take(i as int));
        if file_name.get_char(i) == '.' {
            found = Some(i);
        }
        i = i + 1;
    }
    assert(file_name@.take(n as int) =~= file_name@);
    match found {
        None => false,
        Some(k) => {
            if k == 0 {
                false
            } else {
                let after = file_name.substring_char(k + 1, n);
                assert(after@ =~= file_name@.skip(k + 1));
                same_text(after, ext)
            }
        },
    }
}

/// How a marker is looked for in a directory.
#[derive(Clone, Debug)]
pub enum MarkerCheck {
    /// A file or directory with this name exists there.
    Named(String),
    /// A file with this extension exists there.
    Extension(String),
}

/// How `marker` is looked for: a marker holding `*.` stands for any file
/// with the extension written after its first `*.`; any other marker is a
/// name.
pub fn marker_check(marker: &str) -> (r: MarkerCheck)
    ensures
        match r {
            MarkerCheck::Extension(ext) => exists|i: int|
                #![trigger marker@[i]]
                0 <= i < marker@.len() - 1 && marker@[i] == '*' && marker@[i + 1] == '.' && (forall|j: int|
                    #![trigger marker@[j]]
                    0 <= j < i ==> !(marker@[j] == '*' && marker@[j + 1] == '.')) && ext@
                    == marker@.skip(i + 2),
            MarkerCheck::Named(name) => name@ == marker@ && !exists|i: int|
                #![trigger marker@[i]]
                0 <= i < marker@.len() - 1 && marker@[i] == '*' && marker@[i + 1] == '.',
        },
{
    let n = marker.unicode_len();
    let mut i: usize = 0;
    while i < n && i + 1 < n
        invariant
            n == marker@.len(),
            i <= n,
            forall|j: int|
                #![trigger marker@[j]]
                0 <= j < i && j + 1 < n ==> !(marker@[j] == '*' && marker@[j + 1] == '.'),
        decreases n - i,
    {
        if marker.get_char(i) == '*' && marker.get_char(i + 1) == '.' {
            let ext = marker.substring_char(i + 2, n);
            return MarkerCheck::Extension(owned(ext));
        }
        i = i + 1;
    }
    MarkerCheck::Named(owned(marker))
}

/// Whether the search for a project root of `path`, below `root`, looks
/// into `path.take(k)`: it starts at the parent of `path` and climbs while
/// it has neither reached `root` nor the top.
pub open spec fn searched(path: Seq<Seq<char>>, root: Seq<Seq<char>>, k: int) -> bool {
    &&& parent_spec(path) is Some
    &&& 0 <= k < path.len()
    &&& forall|k2: int|
        k < k2 < path.len() ==> path.take(k2) != root && #[trigger] parent_spec(path.take(k2))
            is Some
}

/// Where marker files can decide a match: the directories that the search
/// for a project root visits, and the markers of the rules that could match.
pub struct MarkerProbes {
    pub dirs: Vec<FsPath>,
    pub markers: Vec<String>,
}

impl RuleSet {
    /// The rules and protected paths of a configuration.
    pub fn from_config(config: &Config) -> (r: RuleSet)
        ensures
            r@.rules == rules_from_config(*config),
            r@.protected_paths == config.protected_paths@.map_values(|p: FsPath| p@),
    {
        let mut disabled: Vec<String> = Vec::new();
        let nd = config.disabled_ecosystems.len();
        let mut i: usize = 0;
        let ghost dis = string_views(config.disabled_ecosystems@);
        while i < nd
            invariant
                nd == config.disabled_ecosystems@.len(),
                i <= nd,
                dis == string_views(config.disabled_ecosystems@),
                string_views(disabled@) == dis.take(i as int).map_values(
                    |e: Seq<char>| unicode_lowercase(e),
                ),
            decreases nd - i,
        {
            let lower = to_lowercase(config.disabled_ecosystems[i].as_str());
            let ghost before = disabled@;
            disabled.push(lower);
            assert(string_views(disabled@) =~= string_views(before).push(lower@));
            assert(dis.take(i + 1) =~= dis.take(i as int).push(dis[i as int]));
            assert(string_views(disabled@) =~= dis.take(i + 1).map_values(
                |e: Seq<char>| unicode_lowercase(e),
            ));
            i = i + 1;
        }
        assert(dis.take(nd as int) =~= dis);
        let builtins = built_in_rules();
        let ghost bv = built_in_rule_views();
        let mut rules: Vec<Rule> = Vec::new();
        let nb = builtins.len();
        let mut j: usize = 0;
        while j < nb
            invariant
                nb == builtins@.len(),
                j <= nb,
                rule_views(builtins@) == bv,
                bv == built_in_rule_views(),
                string_views(disabled@) == dis.map_values(|e: Seq<char>| unicode_lowercase(e)),
                dis == string_views(config.disabled_ecosystems@),
                rule_views(rules@) == kept_built_ins(dis, bv, j as int),
            decreases nb - j,
        {
            let rule = &builtins[j];
            let eco = to_lowercase(rule.ecosystem.as_str());
            assert(bv[j as int] == rule@);
            let keep = !contains_text(&disabled, &eco) && rule.enabled;
            assert(keep == keeps_built_in(dis, bv[j as int]));
            if keep {
                let copy = rule.duplicate();
                rules.push(copy);
                assert(rule_views(rules@) =~= kept_built_ins(dis, bv, j + 1));
            }
            j = j + 1;
        }
        let ghost kept = rule_views(rules@);
        let nc = config.custom_rules.len();
        let mut c: usize = 0;
        while c < nc
            invariant
                nc == config.custom_rules@.len(),
                c <= nc,
                kept == kept_built_ins(dis, bv, nb as int),
                bv == built_in_rule_views(),
                nb == bv.len(),
                dis == string_views(config.disabled_ecosystems@),
                rule_views(rules@) == kept + config.custom_rules@.take(c as int).map_values(
                    |r: CustomRuleConfig| custom_rule_view(r),
                ),
            decreases nc - c,
        {
            let made = custom_rule(&config.custom_rules[c]);
            let ghost before = rules@;
            rules.push(made);
            assert(rule_views(rules@) =~= rule_views(before).push(made@));
            assert(config.custom_rules@.take(c + 1) =~= config.custom_rules@.take(c as int).push(
                config.custom_rules@[c as int],
            ));
            assert(rule_views(rules@) =~= kept + config.custom_rules@.take(c + 1).map_values(
                |r: CustomRuleConfig| custom_rule_view(r),
            ));
            c = c + 1;
        }
        assert(config.custom_rules@.take(nc as int) =~= config.custom_rules@);
        let mut protected_paths: Vec<FsPath> = Vec::new();
        let np = config.protected_paths.len();
        let mut p: usize = 0;
        while p < np
            invariant
                np == config.protected_paths@.len(),
                p <= np,
                protected_paths@.map_values(|q: FsPath| q@) == config.protected_paths@.take(
                    p as int,
                ).map_values(|q: FsPath| q@),
            decreases np - p,
        {
            let copy = config.protected_paths[p].duplicate();
            let ghost before = protected_paths@;
            protected_paths.push(copy);
            assert(protected_paths@.map_values(|q: FsPath| q@) =~= before.map_values(|q: FsPath| q@).push(copy@));
            assert(config.protected_paths@.take(p + 1) =~= config.protected_paths@.take(p as int).push(
                config.protected_paths@[p as int],
            ));
            assert(protected_paths@.map_values(|q: FsPath| q@) =~= config.protected_paths@.take(
                p + 1,
            ).map_values(|q: FsPath| q@));
            p = p + 1;
        }
        assert(config.protected_paths@.take(np as int) =~= config.protected_paths@);
        let r = RuleSet { rules, protected_paths };
        assert(r@.protected_paths =~= config.protected_paths@.map_values(|q: FsPath| q@));
        r
    }

    /// The rule that recognises `path`, a directory met while scanning
    /// `root`: the first rule whose directory name is the last component of
    /// `path` and that, when it lists markers, finds one of them (by `facts`)
    /// in an ancestor of `path` within `root`. The project root is that
    /// ancestor, or the parent of `path` for a rule without markers.
    pub fn match_directory(&self, path: &FsPath, root: &FsPath, facts: &MarkerFacts) -> (r: Option<
        RuleMatch,
    >)
        ensures
            match first_match_from(self@.rules, 0, path@, root@, facts@) {
                None => r is None,
                Some(i) => r matches Some(m) && m.rule@ == self@.rules[i] && rule_outcome(
                    self@.rules[i],
                    path@,
                    root@,
                    facts@,
                ) == Some(
                    match m.project_root {
                        Some(p) => Some(p@),
                        None => None,
                    },
                ),
            },
    {
        let name = match path.file_name() {
            Some(n) => n,
            None => {
                proof {
                    self.lemma_no_name_no_match(path@, root@, facts@, 0);
                }
                return None;
            },
        };
        let n = self.rules.len();
        let mut i: usize = 0;
        while i < n
            invariant
                n == self.rules@.len(),
                i <= n,
                file_name_spec(path@) == Some(name@),
                first_match_from(self@.rules, 0, path@, root@, facts@) == first_match_from(
                    self@.rules,
                    i as int,
                    path@,
                    root@,
                    facts@,
                ),
            decreases n - i,
        {
            let rule = &self.rules[i];
            assert(self@.rules[i as int] == rule@);
            if same_text(rule.directory_name.as_str(), name.as_str()) {
                if rule.required_markers.len() == 0 {
                    let project_root = path.parent();
                    return Some(RuleMatch { rule: rule.duplicate(), project_root });
                }
                match marker_ancestor(path, root, &rule.required_markers, facts) {
                    Some(dir) => {
                        return Some(RuleMatch { rule: rule.duplicate(), project_root: Some(dir) });
                    },
                    None => {},
                }
            }
            i = i + 1;
        }
        None
    }

    proof fn lemma_no_name_no_match(
        &self,
        path: Seq<Seq<char>>,
        root: Seq<Seq<char>>,
        facts: Seq<(Seq<Seq<char>>, Seq<char>)>,
        k: int,
    )
        requires
            file_name_spec(path) is None,
            0 <= k,
        ensures
            first_match_from(self@.rules, k, path, root, facts) is None,
        decreases self@.rules.len() - k,
    {
        if k < self@.rules.len() {
            self.lemma_no_name_no_match(path, root, facts, k + 1);
        }
    }

    /// Whether `path`, met while scanning `root`, lies at or below one of the
    /// protected paths, each resolved against `root`.
    pub fn is_protected_path(&self, root: &FsPath, path: &FsPath) -> (r: bool)
        ensures
            r == is_protected_spec(self@.protected_paths, root@, path@),
    {
        let n = self.protected_paths.len();
        let mut i: usize = 0;
        while i < n
            invariant
                n == self.protected_paths@.len(),
                i <= n,
                forall|j: int|
                    0 <= j < i ==> !starts_with_spec(
                        path@,
                        #[trigger] resolve_protected_spec(root@, self@.protected_paths[j]),
                    ),
            decreases n - i,
        {
            let resolved = resolve_protected_path(root, &self.protected_paths[i]);
            assert(self@.protected_paths[i as int] == self.protected_paths@[i as int]@);
            if path.same_as(&resolved) || path.starts_with(&resolved) {
                proof {
                    if path@ == resolved@ {
                        assert(resolved@.is_prefix_of(path@));
                    }
                }
                return true;
            }
            i = i + 1;
        }
        false
    }

    /// The directories and markers to look for before matching `path`,
    /// met while scanning `root`: every directory that the search for a
    /// project root visits, and every marker of each rule named like the
    /// last component of `path`.
    pub fn marker_probes(&self, path: &FsPath, root: &FsPath) -> (r: MarkerProbes)
        ensures
            forall|k: int|
                #![trigger path@.take(k)]
                searched(path@, root@, k) ==> r.dirs@.map_values(|d: FsPath| d@).contains(
                    path@.take(k),
                ),
            forall|i: int, j: int|
                0 <= i < self@.rules.len() && file_name_spec(path@) == Some(
                    self@.rules[i].directory_name,
                ) && 0 <= j < self@.rules[i].required_markers.len() ==> string_views(
                    r.markers@,
                ).contains(#[trigger] self@.rules[i].required_markers[j]),
    {
        let mut dirs: Vec<FsPath> = Vec::new();
        let mut current = path.parent();
        let ghost mut k: int = path@.len() - 1;
        while current.is_some()
            invariant
                -1 <= k < path@.len(),
                current matches Some(d) ==> d@ == path@.take(k) && searched(path@, root@, k),
                current is None ==> forall|k2: int| k2 <= k ==> !searched(path@, root@, k2),
                forall|k2: int|
                    #![trigger path@.take(k2)]
                    k < k2 && searched(path@, root@, k2) ==> dirs@.map_values(|d: FsPath| d@).contains(
                        path@.take(k2),
                    ),
            decreases k + 1,
        {
            let d = current.unwrap();
            let ghost before = dirs@;
            dirs.push(d.duplicate());
            proof {
                let v = dirs@.map_values(|q: FsPath| q@);
                assert(v =~= before.map_values(|q: FsPath| q@).push(d@));
                assert(v[v.len() - 1] == path@.take(k));
                assert forall|k2: int|
                    #![trigger path@.take(k2)]
                    k <= k2 && searched(path@, root@, k2) implies v.contains(path@.take(k2)) by {
                    if k2 == k {
                        assert(v[v.len() - 1] == path@.take(k2));
                    } else {
                        let bv = before.map_values(|q: FsPath| q@);
                        assert(bv.contains(path@.take(k2)));
                        let w = choose|w: int| 0 <= w < bv.len() && #[trigger] bv[w] == path@.take(k2);
                        assert(v[w] == path@.take(k2));
                    }
                }
            }
            if d.same_as(root) {
                current = None;
            } else {
                let next = d.parent();
                proof {
                    if next.is_some() {
                        assert(d@.drop_last() =~= path@.take(k - 1));
                        assert forall|k2: int| k - 1 < k2 < path@.len() implies path@.take(k2)
                            != root@ && #[trigger] parent_spec(path@.take(k2)) is Some by {
                            if k2 > k {
                                assert(searched(path@, root@, k));
                            }
                        }
                    }
                }
                current = next;
            }
            proof {
                k = k - 1;
            }
        }
        let mut markers: Vec<String> = Vec::new();
        let name = path.file_name();
        let n = self.rules.len();
        let mut i: usize = 0;
        while i < n
            invariant
                n == self.rules@.len(),
                i <= n,
                name matches Some(x) ==> file_name_spec(path@) == Some(x@),
                name is None ==> file_name_spec(path@) is None,
                forall|i2: int, j: int|
                    0 <= i2 < i && file_name_spec(path@) == Some(self@.rules[i2].directory_name)
                        && 0 <= j < self@.rules[i2].required_markers.len() ==> string_views(
                        markers@,
                    ).contains(#[trigger] self@.rules[i2].required_markers[j]),
            decreases n - i,
        {
            let rule = &self.rules[i];
            assert(self@.rules[i as int] == rule@);
            let named = match &name {
                Some(x) => same_text(rule.directory_name.as_str(), x.as_str()),
                None => false,
            };
            if named {
                let m = rule.required_markers.len();
                let mut j: usize = 0;
                while j < m
                    invariant
                        m == rule.required_markers@.len(),
                        j <= m,
                        forall|i2: int, j2: int|
                            0 <= i2 < i && file_name_spec(path@) == Some(
                                self@.rules[i2].directory_name,
                            ) && 0 <= j2 < self@.rules[i2].required_markers.len() ==> string_views(
                                markers@,
                            ).contains(#[trigger] self@.rules[i2].required_markers[j2]),
                        forall|j2: int|
                            0 <= j2 < j ==> string_views(markers@).contains(
                                #[trigger] string_views(rule.required_markers@)[j2],
                            ),
                    decreases m - j,
                {
                    let ghost before = markers@;
                    markers.push(rule.required_markers[j].clone());
                    proof {
                        let v = string_views(markers@);
                        assert(v =~= string_views(before).push(rule.required_markers@[j as int]@));
                        assert forall|x: Seq<char>| string_views(before).contains(x) implies v.contains(
                            x,
                        ) by {
                            let w = choose|w: int|
                                0 <= w < before.len() && #[trigger] string_views(before)[w] == x;
                            assert(v[w] == x);
                        }
                        assert(v[v.len() - 1] == string_views(rule.required_markers@)[j as int]);
                    }
                    j = j + 1;
                }
            }
            i = i + 1;
        }
        MarkerProbes { dirs, markers }
    }

    /// The rules of the set.
    pub fn rules(&self) -> (r: &Vec<Rule>)
        ensures
            rule_views(r@) == self@.rules,
    {
        &self.rules
    }
}

} // verus!
