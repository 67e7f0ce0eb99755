//! User configuration: custom rules, disabled ecosystems, protected paths.
use vstd::prelude::*;
use vstd::string::*;

use crate::domain::{ArtifactKind, DeleteStrategy};
use crate::error::{failure_of, RepoSweepError};
use crate::fspath::{is_absolute_spec, join_spec, parse_spec, FsPath};
use crate::text::owned;

verus! {

/// A rule that the user adds in the configuration file.
#[derive(Clone, Debug)]
pub struct CustomRuleConfig {
    pub name: String,
    pub directory_name: String,
    pub kind: ArtifactKind,
    pub ecosystem: String,
    pub required_markers: Vec<String>,
    pub enabled: bool,
}

/// The value that a missing `enabled` entry of a custom rule takes.
pub fn default_true() -> (r: bool)
    ensures
        r,
{
    true
}

/// The configuration of a scan.
#[derive(Clone, Debug)]
pub struct Config {
    pub disabled_ecosystems: Vec<String>,
    pub protected_paths: Vec<FsPath>,
    pub custom_rules: Vec<CustomRuleConfig>,
    pub default_delete_strategy: DeleteStrategy,
}

/// The views of a sequence of paths.
pub open spec fn paths_view(v: Seq<FsPath>) -> Seq<Seq<Seq<char>>> {
    v.map_values(|p: FsPath| p@)
}

/// The paths that the default configuration protects, relative to each scan
/// root.
pub open spec fn default_protected_paths() -> Seq<Seq<Seq<char>>> {
    seq![
        parse_spec(".git"@),
        parse_spec(".github"@),
        parse_spec(".idea/runConfigurations"@),
    ]
}

/// Whether `c` is the default configuration: nothing disabled, no custom
/// rules, the default protected paths, and moving to the trash.
pub open spec fn is_default_config(c: Config) -> bool {
    &&& c.disabled_ecosystems@.len() == 0
    &&& paths_view(c.protected_paths@) == default_protected_paths()
    &&& c.custom_rules@.len() == 0
    &&& c.default_delete_strategy == DeleteStrategy::Trash
}

impl Default for Config {
    fn default() -> (r: Self)
        ensures
            is_default_config(r),
    {
        let mut protected_paths: Vec<FsPath> = Vec::new();
        protected_paths.push(FsPath::parse(".git"));
        protected_paths.push(FsPath::parse(".github"));
        protected_paths.push(FsPath::parse(".idea/runConfigurations"));
        let r = Config {
            disabled_ecosystems: Vec::new(),
            protected_paths,
            custom_rules: Vec::new(),
            default_delete_strategy: DeleteStrategy::Trash,
        };
        assert(paths_view(r.protected_paths@) =~= default_protected_paths());
        r
    }
}

/// Where the configuration lives.
#[derive(Clone, Debug)]
pub struct ConfigPaths {
    pub config_dir: FsPath,
    pub config_file: FsPath,
}

impl ConfigPaths {
    /// The paths of a configuration kept in `config_dir`: the file
    /// `config.toml` there.
    pub fn in_config_dir(config_dir: FsPath) -> (r: ConfigPaths)
        ensures
            r.config_dir@ == config_dir@,
            r.config_file@ == join_spec(config_dir@, seq!["config.toml"@]),
    {
        let config_file = config_dir.child("config.toml");
        ConfigPaths { config_dir, config_file }
    }
}

/// Where the terminal interface keeps its own state.
#[derive(Clone, Debug)]
pub struct UiStatePaths {
    pub data_dir: FsPath,
    pub state_file: FsPath,
}

impl UiStatePaths {
    /// The paths of a state kept in `data_dir`: the file `state.toml` there.
    pub fn in_data_dir(data_dir: FsPath) -> (r: UiStatePaths)
        ensures
            r.data_dir@ == data_dir@,
            r.state_file@ == join_spec(data_dir@, seq!["state.toml"@]),
    {
        let state_file = data_dir.child("state.toml");
        UiStatePaths { data_dir, state_file }
    }
}

/// `directories::ProjectDirs`, the per-user directories of an application.
#[verifier::external_type_specification]
#[verifier::external_body]
pub struct ExProjectDirs(directories::ProjectDirs);

/// Calls `directories::ProjectDirs::from`. The directories come from the
/// user's home directory and environment; the call gives none when no home
/// directory can be found. Nothing is stated of the outcome.
#[verifier::external_body]
fn project_dirs_from(qualifier: &str, organization: &str, application: &str) -> Option<
    directories::ProjectDirs,
> {
    directories::ProjectDirs::from(qualifier, organization, application)
}

/// Calls `directories::ProjectDirs::config_dir` and gives the directory as
/// text (lossily, for a path that is not Unicode). Nothing is stated of it.
#[verifier::external_body]
fn config_dir_text(dirs: &directories::ProjectDirs) -> String {
    dirs.config_dir().to_string_lossy().into_owned()
}

/// Calls `directories::ProjectDirs::data_dir` and gives the directory as
/// text (lossily, for a path that is not Unicode). Nothing is stated of it.
#[verifier::external_body]
fn data_dir_text(dirs: &directories::ProjectDirs) -> String {
    dirs.data_dir().to_string_lossy().into_owned()
}

/// The error when the user's directories cannot be found.
pub open spec fn no_dirs_error(e: RepoSweepError) -> bool {
    e matches RepoSweepError::Config(m) && m@ == "failed to resolve OS config directories"@
}

/// The configuration and interface state kept in the user's directories
/// for this application.
#[derive(Clone, Copy, Debug, Default)]
pub struct FileConfigStore;

impl FileConfigStore {
    fn project_dirs() -> (r: Result<directories::ProjectDirs, RepoSweepError>)
        ensures
            r matches Err(e) ==> no_dirs_error(e),
    {
        match project_dirs_from("dev", "Shatter", "shatter") {
            Some(dirs) => Ok(dirs),
            None => {
                proof {
                    reveal_strlit("failed to resolve OS config directories");
                }
                Err(RepoSweepError::Config(owned("failed to resolve OS config directories")))
            },
        }
    }

    /// Where the interface keeps its state: `state.toml` in the user's data
    /// directory for the application.
    pub fn ui_state_paths() -> (r: Result<UiStatePaths, RepoSweepError>)
        ensures
            r matches Ok(p) ==> p.state_file@ == join_spec(p.data_dir@, seq!["state.toml"@]),
            r matches Err(e) ==> no_dirs_error(e),
    {
        let dirs = FileConfigStore::project_dirs()?;
        let data_dir = FsPath::parse(data_dir_text(&dirs).as_str());
        Ok(UiStatePaths::in_data_dir(data_dir))
    }

    /// Where the configuration lives: `config.toml` in the user's config
    /// directory for the application.
    pub fn config_paths(&self) -> (r: Result<ConfigPaths, RepoSweepError>)
        ensures
            r matches Ok(p) ==> p.config_file@ == join_spec(p.config_dir@, seq!["config.toml"@]),
            r matches Err(e) ==> no_dirs_error(e),
    {
        let dirs = FileConfigStore::project_dirs()?;
        let config_dir = FsPath::parse(config_dir_text(&dirs).as_str());
        Ok(ConfigPaths::in_config_dir(config_dir))
    }
}

/// Where a configuration is read from and written to.
pub trait ConfigStore {
    /// Whether `r` is an answer this store may give when asked to load. A
    /// store that states nothing may give any answer, here and below.
    open spec fn loads(&self, r: Result<Config, RepoSweepError>) -> bool {
        true
    }

    /// Whether `outcome` (no error, or the error) is an answer this store may
    /// give when asked to store `config`.
    open spec fn saves(&self, config: Config, outcome: Option<RepoSweepError>) -> bool {
        true
    }

    /// Whether `r` is an answer this store may give when asked where the
    /// configuration is kept.
    open spec fn locates(&self, r: Result<ConfigPaths, RepoSweepError>) -> bool {
        true
    }

    /// The stored configuration.
    fn load(&self) -> (r: Result<Config, RepoSweepError>)
        ensures
            self.loads(r),
    ;

    /// Stores `config`.
    fn save(&self, config: &Config) -> (r: Result<(), RepoSweepError>)
        ensures
            self.saves(*config, failure_of(r)),
    ;

    /// Where the configuration is stored.
    fn paths(&self) -> (r: Result<ConfigPaths, RepoSweepError>)
        ensures
            self.locates(r),
    ;
}

/// Loads and saves configurations through a store.
#[derive(Clone, Debug)]
pub struct ConfigService<S> {
    store: S,
}

/// The configuration that a load gives, or the default one when it failed.
pub fn config_or_default(loaded: Result<Config, RepoSweepError>) -> (r: Config)
    ensures
        loaded matches Ok(c) ==> r == c,
        loaded is Err ==> is_default_config(r),
{
    match loaded {
        Ok(c) => c,
        Err(_) => Config::default(),
    }
}

impl<S: ConfigStore> ConfigService<S> {
    /// A service over `store`.
    pub fn new(store: S) -> (r: Self)
        ensures
            r.store() == store,
    {
        ConfigService { store }
    }

    /// The store of this service.
    pub closed spec fn store(&self) -> S {
        self.store
    }

    /// The configuration that the store holds, or its error.
    pub fn load(&self) -> (r: Result<Config, RepoSweepError>)
        ensures
            self.store().loads(r),
    {
        self.store.load()
    }

    /// The configuration that the store holds, or the default one when it
    /// cannot be loaded (see `config_or_default`).
    pub fn load_or_default(&self) -> (r: Config)
        ensures
            exists|loaded: Result<Config, RepoSweepError>|
                {
                    &&& #[trigger] self.store().loads(loaded)
                    &&& loaded matches Ok(c) ==> r == c
                    &&& loaded is Err ==> is_default_config(r)
                },
    {
        let loaded = self.store.load();
        let ghost answer = loaded;
        let r = config_or_default(loaded);
        assert(self.store().loads(answer));
        r
    }

    /// Stores the default configuration and answers where it went. A failed
    /// save is answered with its error, without asking for the paths.
    pub fn save_default(&self) -> (r: Result<ConfigPaths, RepoSweepError>)
        ensures
            exists|config: Config, saved: Option<RepoSweepError>|
                {
                    &&& is_default_config(config)
                    &&& #[trigger] self.store().saves(config, saved)
                    &&& saved matches Some(e) ==> r == Err::<ConfigPaths, RepoSweepError>(e)
                    &&& saved is None ==> self.store().locates(r)
                },
    {
        let config = Config::default();
        match self.store.save(&config) {
            Ok(()) => {
                assert(self.store().saves(config, None));
                self.store.paths()
            },
            Err(e) => {
                let ghost saved = Some(e);
                assert(self.store().saves(config, saved));
                Err(e)
            },
        }
    }

    /// Where the store keeps the configuration.
    pub fn paths(&self) -> (r: Result<ConfigPaths, RepoSweepError>)
        ensures
            self.store().locates(r),
    {
        self.store.paths()
    }
}

/// Where a protected path lies for a scan of `root`: as given when absolute,
/// otherwise below `root`.
pub open spec fn resolve_protected_spec(root: Seq<Seq<char>>, protected: Seq<Seq<char>>) -> Seq<
    Seq<char>,
> {
    if is_absolute_spec(protected) {
        protected
    } else {
        join_spec(root, protected)
    }
}

/// Resolves a protected path against a scan root.
pub fn resolve_protected_path(root: &FsPath, protected: &FsPath) -> (r: FsPath)
    ensures
        r@ == resolve_protected_spec(root@, protected@),
{
    if protected.is_absolute() {
        protected.duplicate()
    } else {
        root.join(protected)
    }
}

} // verus!
