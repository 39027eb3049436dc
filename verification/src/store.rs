//! Env storage: what the config files hold and how a key changes it.
//!
//! The shared layer (`<root>/.xen/`) is one file per concept: `repos.toml`
//! with the per-repo manifest, `rules.toml` with the cascade rules,
//! `hooks.toml` with the verb hooks. The private layer (`~/.xen/config.toml`)
//! is one per-repo file.
//!
//! `write_shared`, `unset_shared`, `write_private`, `unset_private` and
//! `unset_rule_by_name` / `unset_hook_by_name` are the only functions that
//! change a config by key. A `SharedKey` can only reach the shared files and
//! a `PrivateKey` only the private one.

use crate::key::{
    AuthField, HookField, PrivateKey, PrivateKeyModel, RuleField, SharedKey, SharedKeyModel,
};
use crate::place::{place, place_of};
use crate::text::{self, Class, Text};
use crate::textmap::TextMap;
use vstd::prelude::*;

verus! {

// --- locations --------------------------------------------------------------

/// `rel` taken relative to `base`: an absolute `rel` stands for itself.
pub open spec fn joined_path(base: Text, rel: Text) -> Text {
    if rel.len() > 0 && rel[0] == '/' {
        rel
    } else if base.len() == 0 {
        rel
    } else if base.last() == '/' {
        base + rel
    } else {
        base + "/"@ + rel
    }
}

/// `rel` taken relative to `base`: an absolute `rel` stands for itself.
pub fn join_path(base: &str, rel: &str) -> (r: String)
    ensures
        r@ == joined_path(base@, rel@),
{
    if rel.unicode_len() > 0 && rel.get_char(0) == '/' {
        return rel.to_owned();
    }
    let n: usize = base.unicode_len();
    if n == 0 {
        return rel.to_owned();
    }
    if base.get_char(n - 1) == '/' {
        text::cat(base, rel)
    } else {
        text::cat(text::cat(base, "/").as_str(), rel)
    }
}

/// The directories that the env lives in.
#[derive(Clone, Debug)]
pub struct EnvPaths {
    /// The workspace root.
    pub shared_root: String,
    /// The directory of the shared layer.
    pub shared_dir: String,
    /// The directory of the private layer.
    pub private_dir: String,
}

/// What `EnvPaths` stands for.
pub struct EnvPathsModel {
    pub shared_root: Text,
    pub shared_dir: Text,
    pub private_dir: Text,
}

impl DeepView for EnvPaths {
    type V = EnvPathsModel;

    open spec fn deep_view(&self) -> EnvPathsModel {
        EnvPathsModel {
            shared_root: self.shared_root@,
            shared_dir: self.shared_dir@,
            private_dir: self.private_dir@,
        }
    }
}

/// The first of two values that is there.
pub open spec fn first_of<T>(a: Option<T>, b: Option<T>) -> Option<T> {
    if a is Some {
        a
    } else {
        b
    }
}

/// The directories for a workspace root and a private directory.
pub open spec fn paths_at(root: Text, private_dir: Text) -> EnvPathsModel {
    EnvPathsModel { shared_root: root, shared_dir: joined_path(root, ".xen"@), private_dir }
}

/// Where the env lives, or why that cannot be told.
pub open spec fn discovered(
    root: Option<Text>,
    cwd: Option<Text>,
    private_dir: Option<Text>,
    home: Option<Text>,
) -> Result<EnvPathsModel, Text> {
    match first_of(root, cwd) {
        None => Err("cwd"@),
        Some(r) => match (private_dir, home) {
            (Some(p), _) => Ok(paths_at(r, p)),
            (None, Some(h)) => Ok(paths_at(r, joined_path(h, ".xen"@))),
            (None, None) => Err("HOME not set"@),
        },
    }
}

impl EnvPathsModel {
    /// The repo manifest.
    pub open spec fn repos_file(self) -> Text {
        joined_path(self.shared_dir, "repos.toml"@)
    }

    /// The cascade rules.
    pub open spec fn rules_file(self) -> Text {
        joined_path(self.shared_dir, "rules.toml"@)
    }

    /// The verb hooks.
    pub open spec fn hooks_file(self) -> Text {
        joined_path(self.shared_dir, "hooks.toml"@)
    }

    /// The private layer.
    pub open spec fn private_file(self) -> Text {
        joined_path(self.private_dir, "config.toml"@)
    }

    /// The whole shared layer, before it was split.
    pub open spec fn legacy_shared_file(self) -> Text {
        joined_path(self.shared_dir, "config.toml"@)
    }
}

/// The user's home directory: `HOME`, or `USERPROFILE` where that is not set.
pub fn home(posix: Option<String>, userprofile: Option<String>) -> (r: Option<String>)
    ensures
        r == first_of(posix, userprofile),
{
    match posix {
        Some(h) => Some(h),
        None => userprofile,
    }
}

impl EnvPaths {
    /// Locates the env. `root` and `private_dir` are the explicit overrides
    /// (`XEN_ROOT`, `XEN_PRIVATE_DIR`); without them the shared root is the
    /// current directory and the private directory is `.xen` in the home
    /// directory.
    pub fn discover(
        root: Option<String>,
        cwd: Option<String>,
        private_dir: Option<String>,
        home: Option<String>,
    ) -> (r: Result<Self, String>)
        ensures
            text::outcome(r) == discovered(
                root.deep_view(),
                cwd.deep_view(),
                private_dir.deep_view(),
                home.deep_view(),
            ),
    {
        let shared_root: String = match root {
            Some(r) => r,
            None => match cwd {
                Some(c) => c,
                None => return Err("cwd".to_owned()),
            },
        };
        let private_dir: String = match private_dir {
            Some(p) => p,
            None => match home {
                Some(h) => join_path(h.as_str(), ".xen"),
                None => return Err("HOME not set".to_owned()),
            },
        };
        let shared_dir: String = join_path(shared_root.as_str(), ".xen");
        Ok(EnvPaths { shared_root, shared_dir, private_dir })
    }

    /// The repo manifest.
    pub fn repos_file(&self) -> (r: String)
        ensures
            r@ == self.deep_view().repos_file(),
    {
        join_path(self.shared_dir.as_str(), "repos.toml")
    }

    /// The cascade rules.
    pub fn rules_file(&self) -> (r: String)
        ensures
            r@ == self.deep_view().rules_file(),
    {
        join_path(self.shared_dir.as_str(), "rules.toml")
    }

    /// The verb hooks.
    pub fn hooks_file(&self) -> (r: String)
        ensures
            r@ == self.deep_view().hooks_file(),
    {
        join_path(self.shared_dir.as_str(), "hooks.toml")
    }

    /// The private layer.
    pub fn private_file(&self) -> (r: String)
        ensures
            r@ == self.deep_view().private_file(),
    {
        join_path(self.private_dir.as_str(), "config.toml")
    }

    /// Where workspaces kept the whole shared layer before it was split into
    /// one file per concept.
    pub fn legacy_shared_file(&self) -> (r: String)
        ensures
            r@ == self.deep_view().legacy_shared_file(),
    {
        join_path(self.shared_dir.as_str(), "config.toml")
    }
}

// --- what the files hold ----------------------------------------------------

/// One repo of the shared manifest.
#[derive(Debug)]
pub struct SharedRepo {
    /// Where the repo is cloned from.
    pub url: Option<String>,
    /// Where it materializes, relative to the workspace root.
    pub at: Option<String>,
    /// The sparse paths; none means the full tree.
    pub paths: Vec<String>,
    /// The branch that each branchtype stands for.
    pub branchtypes: TextMap<String>,
}

/// What a `SharedRepo` stands for.
#[verifier::ext_equal]
pub struct SharedRepoModel {
    pub url: Option<Text>,
    pub at: Option<Text>,
    pub paths: Seq<Text>,
    pub branchtypes: Map<Text, Text>,
}

impl DeepView for SharedRepo {
    type V = SharedRepoModel;

    open spec fn deep_view(&self) -> SharedRepoModel {
        SharedRepoModel {
            url: self.url.deep_view(),
            at: self.at.deep_view(),
            paths: self.paths.deep_view(),
            branchtypes: self.branchtypes.deep_view(),
        }
    }
}

impl SharedRepoModel {
    /// A repo of which nothing is recorded.
    pub open spec fn empty() -> SharedRepoModel {
        SharedRepoModel { url: None, at: None, paths: Seq::empty(), branchtypes: Map::empty() }
    }

    /// Whether nothing is recorded.
    pub open spec fn is_empty(self) -> bool {
        self.url is None && self.at is None && self.paths.len() == 0 && self.branchtypes
            == Map::<Text, Text>::empty()
    }
}

impl Default for SharedRepo {
    fn default() -> (r: Self)
        ensures
            r.deep_view() == SharedRepoModel::empty(),
    {
        let r = SharedRepo { url: None, at: None, paths: Vec::new(), branchtypes: TextMap::new() };
        assert(r.paths.deep_view() =~= Seq::<Text>::empty());
        r
    }
}

impl SharedRepo {
    /// Whether nothing is recorded.
    pub fn is_empty(&self) -> (r: bool)
        ensures
            r == self.deep_view().is_empty(),
    {
        self.url.is_none() && self.at.is_none() && self.paths.len() == 0
            && self.branchtypes.is_empty()
    }

    /// Where the manifest places the repo, relative to the workspace root.
    pub fn placement(&self, name: &str) -> (r: String)
        ensures
            r@ == manifest_place(name@, self.deep_view()),
    {
        place(&self.at, &self.url, name)
    }
}

/// Where the manifest places a repo.
pub open spec fn manifest_place(name: Text, r: SharedRepoModel) -> Text {
    place_of(r.at, r.url, name)
}

/// The repo manifest: the shared layer's `repos.toml`.
#[derive(Debug)]
pub struct SharedConfig {
    /// The repos by name.
    pub repos: TextMap<SharedRepo>,
}

impl DeepView for SharedConfig {
    type V = Map<Text, SharedRepoModel>;

    open spec fn deep_view(&self) -> Map<Text, SharedRepoModel> {
        self.repos.deep_view()
    }
}

impl Default for SharedConfig {
    fn default() -> (r: Self)
        ensures
            r.deep_view() == Map::<Text, SharedRepoModel>::empty(),
    {
        SharedConfig { repos: TextMap::new() }
    }
}

/// One cascade rule.
#[derive(Debug)]
pub struct SharedRule {
    /// Regex matched against the cascade command.
    pub pattern: Option<String>,
    /// Shell command that allows or denies.
    pub predicate: Option<String>,
    /// Text shown on denial.
    pub message: Option<String>,
}

/// What a `SharedRule` stands for.
#[verifier::ext_equal]
pub struct SharedRuleModel {
    pub pattern: Option<Text>,
    pub predicate: Option<Text>,
    pub message: Option<Text>,
}

impl DeepView for SharedRule {
    type V = SharedRuleModel;

    open spec fn deep_view(&self) -> SharedRuleModel {
        SharedRuleModel {
            pattern: self.pattern.deep_view(),
            predicate: self.predicate.deep_view(),
            message: self.message.deep_view(),
        }
    }
}

impl SharedRuleModel {
    /// A rule without any field.
    pub open spec fn empty() -> SharedRuleModel {
        SharedRuleModel { pattern: None, predicate: None, message: None }
    }

    /// Whether no field is set.
    pub open spec fn is_empty(self) -> bool {
        self.pattern is None && self.predicate is None && self.message is None
    }

    /// Whether both fields that a rule needs are set.
    pub open spec fn is_complete(self) -> bool {
        self.pattern is Some && self.predicate is Some
    }
}

impl Default for SharedRule {
    fn default() -> (r: Self)
        ensures
            r.deep_view() == SharedRuleModel::empty(),
    {
        SharedRule { pattern: None, predicate: None, message: None }
    }
}

impl SharedRule {
    /// Whether no field is set.
    pub fn is_empty(&self) -> (r: bool)
        ensures
            r == self.deep_view().is_empty(),
    {
        self.pattern.is_none() && self.predicate.is_none() && self.message.is_none()
    }

    /// Whether both fields that a rule needs are set.
    pub fn is_complete(&self) -> (r: bool)
        ensures
            r == self.deep_view().is_complete(),
    {
        self.pattern.is_some() && self.predicate.is_some()
    }
}

/// The cascade rules: the shared layer's `rules.toml`.
#[derive(Debug)]
pub struct RulesConfig {
    /// The rules by name.
    pub rules: TextMap<SharedRule>,
}

impl DeepView for RulesConfig {
    type V = Map<Text, SharedRuleModel>;

    open spec fn deep_view(&self) -> Map<Text, SharedRuleModel> {
        self.rules.deep_view()
    }
}

impl Default for RulesConfig {
    fn default() -> (r: Self)
        ensures
            r.deep_view() == Map::<Text, SharedRuleModel>::empty(),
    {
        RulesConfig { rules: TextMap::new() }
    }
}

/// One verb hook.
#[derive(Debug)]
pub struct SharedHook {
    /// Regex matched against the invocation (`match` in the file).
    pub match_pattern: Option<String>,
    /// Shell command that runs.
    pub exec_command: Option<String>,
    /// Side of the verb on which the hook fires.
    pub when: Option<String>,
}

/// What a `SharedHook` stands for.
#[verifier::ext_equal]
pub struct SharedHookModel {
    pub match_pattern: Option<Text>,
    pub exec_command: Option<Text>,
    pub when: Option<Text>,
}

impl DeepView for SharedHook {
    type V = SharedHookModel;

    open spec fn deep_view(&self) -> SharedHookModel {
        SharedHookModel {
            match_pattern: self.match_pattern.deep_view(),
            exec_command: self.exec_command.deep_view(),
            when: self.when.deep_view(),
        }
    }
}

impl SharedHookModel {
    /// A hook without any field.
    pub open spec fn empty() -> SharedHookModel {
        SharedHookModel { match_pattern: None, exec_command: None, when: None }
    }

    /// Whether no field is set.
    pub open spec fn is_empty(self) -> bool {
        self.match_pattern is None && self.exec_command is None && self.when is None
    }

    /// Whether both fields that a hook needs are set.
    pub open spec fn is_complete(self) -> bool {
        self.match_pattern is Some && self.exec_command is Some
    }
}

impl Default for SharedHook {
    fn default() -> (r: Self)
        ensures
            r.deep_view() == SharedHookModel::empty(),
    {
        SharedHook { match_pattern: None, exec_command: None, when: None }
    }
}

impl SharedHook {
    /// Whether no field is set.
    pub fn is_empty(&self) -> (r: bool)
        ensures
            r == self.deep_view().is_empty(),
    {
        self.match_pattern.is_none() && self.exec_command.is_none() && self.when.is_none()
    }

    /// Whether both fields that a hook needs are set.
    pub fn is_complete(&self) -> (r: bool)
        ensures
            r == self.deep_view().is_complete(),
    {
        self.match_pattern.is_some() && self.exec_command.is_some()
    }
}

/// The verb hooks: the shared layer's `hooks.toml`.
#[derive(Debug)]
pub struct HooksConfig {
    /// The hooks by name.
    pub hooks: TextMap<SharedHook>,
}

impl DeepView for HooksConfig {
    type V = Map<Text, SharedHookModel>;

    open spec fn deep_view(&self) -> Map<Text, SharedHookModel> {
        self.hooks.deep_view()
    }
}

impl Default for HooksConfig {
    fn default() -> (r: Self)
        ensures
            r.deep_view() == Map::<Text, SharedHookModel>::empty(),
    {
        HooksConfig { hooks: TextMap::new() }
    }
}

/// One repo of the private layer.
#[derive(Debug)]
pub struct PrivateRepo {
    /// Path of the ssh key to use.
    pub key: Option<String>,
    /// Credential helper.
    pub helper: Option<String>,
    /// Reference to a token.
    pub token: Option<String>,
    /// Placement on this machine.
    pub at: Option<String>,
    /// Sparse paths on this machine.
    pub paths: Vec<String>,
    /// Branchtype mappings on this machine.
    pub branchtypes: TextMap<String>,
}

/// What a `PrivateRepo` stands for.
#[verifier::ext_equal]
pub struct PrivateRepoModel {
    pub key: Option<Text>,
    pub helper: Option<Text>,
    pub token: Option<Text>,
    pub at: Option<Text>,
    pub paths: Seq<Text>,
    pub branchtypes: Map<Text, Text>,
}

impl DeepView for PrivateRepo {
    type V = PrivateRepoModel;

    open spec fn deep_view(&self) -> PrivateRepoModel {
        PrivateRepoModel {
            key: self.key.deep_view(),
            helper: self.helper.deep_view(),
            token: self.token.deep_view(),
            at: self.at.deep_view(),
            paths: self.paths.deep_view(),
            branchtypes: self.branchtypes.deep_view(),
        }
    }
}

impl PrivateRepoModel {
    /// A repo of which nothing is recorded.
    pub open spec fn empty() -> PrivateRepoModel {
        PrivateRepoModel {
            key: None,
            helper: None,
            token: None,
            at: None,
            paths: Seq::empty(),
            branchtypes: Map::empty(),
        }
    }

    /// Whether nothing is recorded.
    pub open spec fn is_empty(self) -> bool {
        self.key is None && self.helper is None && self.token is None && self.at is None
            && self.paths.len() == 0 && self.branchtypes == Map::<Text, Text>::empty()
    }
}

impl Default for PrivateRepo {
    fn default() -> (r: Self)
        ensures
            r.deep_view() == PrivateRepoModel::empty(),
    {
        let r = PrivateRepo {
            key: None,
            helper: None,
            token: None,
            at: None,
            paths: Vec::new(),
            branchtypes: TextMap::new(),
        };
        assert(r.paths.deep_view() =~= Seq::<Text>::empty());
        r
    }
}

impl PrivateRepo {
    /// Whether nothing is recorded.
    pub fn is_empty(&self) -> (r: bool)
        ensures
            r == self.deep_view().is_empty(),
    {
        self.key.is_none() && self.helper.is_none() && self.token.is_none() && self.at.is_none()
            && self.paths.len() == 0 && self.branchtypes.is_empty()
    }
}

/// The private layer's `config.toml`.
#[derive(Debug)]
pub struct PrivateConfig {
    /// The repos by name.
    pub repos: TextMap<PrivateRepo>,
}

impl DeepView for PrivateConfig {
    type V = Map<Text, PrivateRepoModel>;

    open spec fn deep_view(&self) -> Map<Text, PrivateRepoModel> {
        self.repos.deep_view()
    }
}

impl Default for PrivateConfig {
    fn default() -> (r: Self)
        ensures
            r.deep_view() == Map::<Text, PrivateRepoModel>::empty(),
    {
        PrivateConfig { repos: TextMap::new() }
    }
}

// --- path lists -------------------------------------------------------------

/// The parts without white space around them, blank ones left out.
pub open spec fn nonblank(parts: Seq<Text>) -> Seq<Text>
    decreases parts.len(),
{
    if parts.len() == 0 {
        Seq::empty()
    } else {
        let t = text::trimmed(parts.last(), Class::White);
        if t.len() == 0 {
            nonblank(parts.drop_last())
        } else {
            nonblank(parts.drop_last()).push(t)
        }
    }
}

/// The paths in a comma-separated list.
pub open spec fn parsed_paths(s: Text) -> Seq<Text> {
    nonblank(text::split_on(s, ','))
}

/// Comma-separated paths, trimmed; blank entries are left out.
pub fn parse_paths_value(s: String) -> (r: Vec<String>)
    ensures
        r.deep_view() == parsed_paths(s@),
{
    let parts: Vec<String> = text::split(s.as_str(), ',');
    let mut out: Vec<String> = Vec::new();
    assert(out.deep_view() =~= Seq::<Text>::empty());
    for i in 0..parts.len()
        invariant
            out.deep_view() == nonblank(parts.deep_view().take(i as int)),
    {
        let t: String = text::trim(parts[i].as_str(), Class::White);
        let ghost done = out.deep_view();
        assert(parts.deep_view().take(i + 1).drop_last() =~= parts.deep_view().take(i as int));
        if !t.as_str().is_empty() {
            out.push(t);
            assert(out.deep_view() =~= done.push(t@));
        }
    }
    assert(parts.deep_view().take(parts@.len() as int) =~= parts.deep_view());
    out
}

// --- keyed changes ----------------------------------------------------------

impl SharedKeyModel {
    /// The repo that the key belongs to, if it belongs to one.
    pub open spec fn repo(self) -> Option<Text> {
        match self {
            SharedKeyModel::Url(r) => Some(r),
            SharedKeyModel::At(r) => Some(r),
            SharedKeyModel::Branchtype(r, _) => Some(r),
            SharedKeyModel::Paths(r) => Some(r),
            SharedKeyModel::Rule(_, _) => None,
            SharedKeyModel::Hook(_, _) => None,
        }
    }

    /// The file that the key is stored in.
    pub open spec fn file(self) -> SharedFile {
        match self {
            SharedKeyModel::Rule(_, _) => SharedFile::Rules,
            SharedKeyModel::Hook(_, _) => SharedFile::Hooks,
            _ => SharedFile::Repos,
        }
    }
}

impl PrivateKeyModel {
    /// The repo that the key belongs to.
    pub open spec fn repo(self) -> Text {
        match self {
            PrivateKeyModel::Auth(r, _) => r,
            PrivateKeyModel::AtOverride(r) => r,
            PrivateKeyModel::BranchtypeOverride(r, _) => r,
            PrivateKeyModel::PathsOverride(r) => r,
        }
    }
}

/// A map with a key set to a value, or without the key.
pub open spec fn change_entry(m: Map<Text, Text>, k: Text, v: Option<Text>) -> Map<Text, Text> {
    match v {
        Some(v) => m.insert(k, v),
        None => m.remove(k),
    }
}

/// The paths that a value stands for; no value stands for no paths.
pub open spec fn paths_value(v: Option<Text>) -> Seq<Text> {
    match v {
        Some(v) => parsed_paths(v),
        None => Seq::empty(),
    }
}

/// What `m` records under `k`, or `e` if nothing.
pub open spec fn entry_or<V>(m: Map<Text, V>, k: Text, e: V) -> V {
    if m.contains_key(k) {
        m[k]
    } else {
        e
    }
}

/// A shared repo with the field that `key` names set to `v`, or unset.
pub open spec fn change_repo_field(
    e: SharedRepoModel,
    key: SharedKeyModel,
    v: Option<Text>,
) -> SharedRepoModel {
    match key {
        SharedKeyModel::Url(_) => SharedRepoModel { url: v, ..e },
        SharedKeyModel::At(_) => SharedRepoModel { at: v, ..e },
        SharedKeyModel::Paths(_) => SharedRepoModel { paths: paths_value(v), ..e },
        SharedKeyModel::Branchtype(_, b) => SharedRepoModel {
            branchtypes: change_entry(e.branchtypes, b, v),
            ..e
        },
        _ => e,
    }
}

/// The manifest with `key` set to `v`, or unset. A repo of which nothing is
/// left is dropped.
pub open spec fn change_repo(
    m: Map<Text, SharedRepoModel>,
    key: SharedKeyModel,
    v: Option<Text>,
) -> Map<Text, SharedRepoModel> {
    let name = key.repo()->0;
    let e = change_repo_field(entry_or(m, name, SharedRepoModel::empty()), key, v);
    if e.is_empty() {
        m.remove(name)
    } else {
        m.insert(name, e)
    }
}

/// A rule with one field set to `v`, or unset.
pub open spec fn change_rule_field(
    e: SharedRuleModel,
    field: RuleField,
    v: Option<Text>,
) -> SharedRuleModel {
    match field {
        RuleField::Pattern => SharedRuleModel { pattern: v, ..e },
        RuleField::Predicate => SharedRuleModel { predicate: v, ..e },
        RuleField::Message => SharedRuleModel { message: v, ..e },
    }
}

/// The rules with one field of one rule set to `v`, or unset. A rule of which
/// nothing is left is dropped.
pub open spec fn change_rule(
    m: Map<Text, SharedRuleModel>,
    name: Text,
    field: RuleField,
    v: Option<Text>,
) -> Map<Text, SharedRuleModel> {
    let e = change_rule_field(entry_or(m, name, SharedRuleModel::empty()), field, v);
    if e.is_empty() {
        m.remove(name)
    } else {
        m.insert(name, e)
    }
}

/// A hook with one field set to `v`, or unset.
pub open spec fn change_hook_field(
    e: SharedHookModel,
    field: HookField,
    v: Option<Text>,
) -> SharedHookModel {
    match field {
        HookField::Match => SharedHookModel { match_pattern: v, ..e },
        HookField::Exec => SharedHookModel { exec_command: v, ..e },
        HookField::When => SharedHookModel { when: v, ..e },
    }
}

/// The hooks with one field of one hook set to `v`, or unset. A hook of which
/// nothing is left is dropped.
pub open spec fn change_hook(
    m: Map<Text, SharedHookModel>,
    name: Text,
    field: HookField,
    v: Option<Text>,
) -> Map<Text, SharedHookModel> {
    let e = change_hook_field(entry_or(m, name, SharedHookModel::empty()), field, v);
    if e.is_empty() {
        m.remove(name)
    } else {
        m.insert(name, e)
    }
}

/// A private repo with the field that `key` names set to `v`, or unset.
pub open spec fn change_private_field(
    e: PrivateRepoModel,
    key: PrivateKeyModel,
    v: Option<Text>,
) -> PrivateRepoModel {
    match key {
        PrivateKeyModel::Auth(_, AuthField::SshKeyPath) => PrivateRepoModel { key: v, ..e },
        PrivateKeyModel::Auth(_, AuthField::CredentialHelper) => PrivateRepoModel {
            helper: v,
            ..e
        },
        PrivateKeyModel::Auth(_, AuthField::TokenRef) => PrivateRepoModel { token: v, ..e },
        PrivateKeyModel::AtOverride(_) => PrivateRepoModel { at: v, ..e },
        PrivateKeyModel::PathsOverride(_) => PrivateRepoModel { paths: paths_value(v), ..e },
        PrivateKeyModel::BranchtypeOverride(_, b) => PrivateRepoModel {
            branchtypes: change_entry(e.branchtypes, b, v),
            ..e
        },
    }
}

/// The private layer with `key` set to `v`, or unset. A repo of which nothing
/// is left is dropped.
pub open spec fn change_private(
    m: Map<Text, PrivateRepoModel>,
    key: PrivateKeyModel,
    v: Option<Text>,
) -> Map<Text, PrivateRepoModel> {
    let name = key.repo();
    let e = change_private_field(entry_or(m, name, PrivateRepoModel::empty()), key, v);
    if e.is_empty() {
        m.remove(name)
    } else {
        m.insert(name, e)
    }
}

fn paths_of(value: Option<String>) -> (r: Vec<String>)
    ensures
        r.deep_view() == paths_value(value.deep_view()),
{
    match value {
        Some(v) => parse_paths_value(v),
        None => {
            let r: Vec<String> = Vec::new();
            assert(r.deep_view() =~= Seq::<Text>::empty());
            r
        },
    }
}

fn set_branchtype(m: &mut TextMap<String>, b: &str, value: Option<String>)
    ensures
        final(m).deep_view() == change_entry(old(m).deep_view(), b@, value.deep_view()),
{
    match value {
        Some(v) => {
            m.insert(b.to_owned(), v);
        },
        None => {
            let _ = m.remove(b);
        },
    }
}

/// Sets the repo field that `key` names to `value`, or unsets it.
pub fn apply_shared(cfg: &mut SharedConfig, key: SharedKey, value: Option<String>)
    requires
        key.deep_view().repo() is Some,
    ensures
        final(cfg).deep_view() == change_repo(
            old(cfg).deep_view(),
            key.deep_view(),
            value.deep_view(),
        ),
{
    let ghost m = cfg.deep_view();
    let ghost k = key.deep_view();
    let ghost v = value.deep_view();
    let name: String = match &key {
        SharedKey::Url(r) => r.as_str().to_owned(),
        SharedKey::At(r) => r.as_str().to_owned(),
        SharedKey::Paths(r) => r.as_str().to_owned(),
        SharedKey::Branchtype(r, _) => r.as_str().to_owned(),
        SharedKey::Rule(r, _) => r.as_str().to_owned(),
        SharedKey::Hook(r, _) => r.as_str().to_owned(),
    };
    let mut entry: SharedRepo = match cfg.repos.remove(name.as_str()) {
        Some(e) => e,
        None => SharedRepo::default(),
    };
    assert(entry.deep_view() == entry_or(m, name@, SharedRepoModel::empty()));
    match key {
        SharedKey::Url(_) => {
            entry.url = value;
        },
        SharedKey::At(_) => {
            entry.at = value;
        },
        SharedKey::Paths(_) => {
            entry.paths = paths_of(value);
        },
        SharedKey::Branchtype(_, b) => {
            set_branchtype(&mut entry.branchtypes, b.as_str(), value);
        },
        _ => {},
    }
    assert(entry.deep_view() == change_repo_field(
        entry_or(m, name@, SharedRepoModel::empty()),
        k,
        v,
    ));
    if !entry.is_empty() {
        let ghost e = entry.deep_view();
        cfg.repos.insert(name, entry);
        assert(m.remove(name@).insert(name@, e) =~= m.insert(name@, e));
    }
}

/// Sets one field of the rule `name` to `value`, or unsets it.
pub fn apply_rule(cfg: &mut RulesConfig, name: &str, field: RuleField, value: Option<String>)
    ensures
        final(cfg).deep_view() == change_rule(old(cfg).deep_view(), name@, field, value.deep_view()),
{
    let ghost m = cfg.deep_view();
    let mut entry: SharedRule = match cfg.rules.remove(name) {
        Some(e) => e,
        None => SharedRule::default(),
    };
    match field {
        RuleField::Pattern => {
            entry.pattern = value;
        },
        RuleField::Predicate => {
            entry.predicate = value;
        },
        RuleField::Message => {
            entry.message = value;
        },
    }
    if !entry.is_empty() {
        let ghost e = entry.deep_view();
        cfg.rules.insert(name.to_owned(), entry);
        assert(m.remove(name@).insert(name@, e) =~= m.insert(name@, e));
    }
}

/// Sets one field of the hook `name` to `value`, or unsets it.
pub fn apply_hook(cfg: &mut HooksConfig, name: &str, field: HookField, value: Option<String>)
    ensures
        final(cfg).deep_view() == change_hook(old(cfg).deep_view(), name@, field, value.deep_view()),
{
    let ghost m = cfg.deep_view();
    let mut entry: SharedHook = match cfg.hooks.remove(name) {
        Some(e) => e,
        None => SharedHook::default(),
    };
    match field {
        HookField::Match => {
            entry.match_pattern = value;
        },
        HookField::Exec => {
            entry.exec_command = value;
        },
        HookField::When => {
            entry.when = value;
        },
    }
    if !entry.is_empty() {
        let ghost e = entry.deep_view();
        cfg.hooks.insert(name.to_owned(), entry);
        assert(m.remove(name@).insert(name@, e) =~= m.insert(name@, e));
    }
}

/// Sets the field that `key` names to `value`, or unsets it.
pub fn apply_private(cfg: &mut PrivateConfig, key: PrivateKey, value: Option<String>)
    ensures
        final(cfg).deep_view() == change_private(
            old(cfg).deep_view(),
            key.deep_view(),
            value.deep_view(),
        ),
{
    let ghost m = cfg.deep_view();
    let ghost k = key.deep_view();
    let ghost v = value.deep_view();
    let name: String = match &key {
        PrivateKey::Auth(r, _) => r.as_str().to_owned(),
        PrivateKey::AtOverride(r) => r.as_str().to_owned(),
        PrivateKey::BranchtypeOverride(r, _) => r.as_str().to_owned(),
        PrivateKey::PathsOverride(r) => r.as_str().to_owned(),
    };
    let mut entry: PrivateRepo = match cfg.repos.remove(name.as_str()) {
        Some(e) => e,
        None => PrivateRepo::default(),
    };
    assert(entry.deep_view() == entry_or(m, name@, PrivateRepoModel::empty()));
    match key {
        PrivateKey::Auth(_, AuthField::SshKeyPath) => {
            entry.key = value;
        },
        PrivateKey::Auth(_, AuthField::CredentialHelper) => {
            entry.helper = value;
        },
        PrivateKey::Auth(_, AuthField::TokenRef) => {
            entry.token = value;
        },
        PrivateKey::AtOverride(_) => {
            entry.at = value;
        },
        PrivateKey::PathsOverride(_) => {
            entry.paths = paths_of(value);
        },
        PrivateKey::BranchtypeOverride(_, b) => {
            set_branchtype(&mut entry.branchtypes, b.as_str(), value);
        },
    }
    assert(entry.deep_view() == change_private_field(
        entry_or(m, name@, PrivateRepoModel::empty()),
        k,
        v,
    ));
    if !entry.is_empty() {
        let ghost e = entry.deep_view();
        cfg.repos.insert(name, entry);
        assert(m.remove(name@).insert(name@, e) =~= m.insert(name@, e));
    }
}

// --- files ------------------------------------------------------------------

/// One file of the shared layer.
#[derive(Clone, Copy, Eq, PartialEq, Structural, Debug)]
pub enum SharedFile {
    /// `repos.toml`.
    Repos,
    /// `rules.toml`.
    Rules,
    /// `hooks.toml`.
    Hooks,
}

/// One file of the shared layer together with what it holds.
#[derive(Debug)]
pub enum SharedDoc {
    /// `repos.toml`.
    Repos(SharedConfig),
    /// `rules.toml`.
    Rules(RulesConfig),
    /// `hooks.toml`.
    Hooks(HooksConfig),
}

/// What a `SharedDoc` stands for.
pub enum SharedDocModel {
    Repos(Map<Text, SharedRepoModel>),
    Rules(Map<Text, SharedRuleModel>),
    Hooks(Map<Text, SharedHookModel>),
}

impl DeepView for SharedDoc {
    type V = SharedDocModel;

    open spec fn deep_view(&self) -> SharedDocModel {
        match self {
            SharedDoc::Repos(c) => SharedDocModel::Repos(c.deep_view()),
            SharedDoc::Rules(c) => SharedDocModel::Rules(c.deep_view()),
            SharedDoc::Hooks(c) => SharedDocModel::Hooks(c.deep_view()),
        }
    }
}

impl SharedDocModel {
    /// Which file it is.
    pub open spec fn file(self) -> SharedFile {
        match self {
            SharedDocModel::Repos(_) => SharedFile::Repos,
            SharedDocModel::Rules(_) => SharedFile::Rules,
            SharedDocModel::Hooks(_) => SharedFile::Hooks,
        }
    }
}

/// A file of the shared layer with `key` set to `v`, or unset.
pub open spec fn change_doc(
    d: SharedDocModel,
    key: SharedKeyModel,
    v: Option<Text>,
) -> SharedDocModel {
    match (d, key) {
        (SharedDocModel::Rules(m), SharedKeyModel::Rule(n, f)) => SharedDocModel::Rules(
            change_rule(m, n, f, v),
        ),
        (SharedDocModel::Hooks(m), SharedKeyModel::Hook(n, f)) => SharedDocModel::Hooks(
            change_hook(m, n, f, v),
        ),
        (SharedDocModel::Repos(m), _) => SharedDocModel::Repos(change_repo(m, key, v)),
        _ => d,
    }
}

/// The file that a shared key is stored in.
pub fn shared_file(key: &SharedKey) -> (r: SharedFile)
    ensures
        r == key.deep_view().file(),
{
    match key {
        SharedKey::Rule(_, _) => SharedFile::Rules,
        SharedKey::Hook(_, _) => SharedFile::Hooks,
        _ => SharedFile::Repos,
    }
}

fn update_shared(doc: &mut SharedDoc, key: SharedKey, value: Option<String>)
    requires
        old(doc).deep_view().file() == key.deep_view().file(),
    ensures
        final(doc).deep_view() == change_doc(old(doc).deep_view(), key.deep_view(), value.deep_view()),
{
    match key {
        SharedKey::Rule(name, field) => {
            if let SharedDoc::Rules(cfg) = doc {
                apply_rule(cfg, name.as_str(), field, value);
            }
        },
        SharedKey::Hook(name, field) => {
            if let SharedDoc::Hooks(cfg) = doc {
                apply_hook(cfg, name.as_str(), field, value);
            }
        },
        repo_key => {
            if let SharedDoc::Repos(cfg) = doc {
                apply_shared(cfg, repo_key, value);
            }
        },
    }
}

/// Sets `key` to `value` in the file that holds it.
pub fn write_shared(doc: &mut SharedDoc, key: SharedKey, value: String)
    requires
        old(doc).deep_view().file() == key.deep_view().file(),
    ensures
        final(doc).deep_view() == change_doc(old(doc).deep_view(), key.deep_view(), Some(value@)),
{
    update_shared(doc, key, Some(value));
}

/// Unsets `key` in the file that holds it.
pub fn unset_shared(doc: &mut SharedDoc, key: SharedKey)
    requires
        old(doc).deep_view().file() == key.deep_view().file(),
    ensures
        final(doc).deep_view() == change_doc(old(doc).deep_view(), key.deep_view(), None),
{
    update_shared(doc, key, None);
}

/// Drops a whole rule by name, and tells whether there was one.
pub fn unset_rule_by_name(cfg: &mut RulesConfig, name: &str) -> (removed: bool)
    ensures
        removed == old(cfg).deep_view().contains_key(name@),
        final(cfg).deep_view() == old(cfg).deep_view().remove(name@),
{
    cfg.rules.remove(name).is_some()
}

/// Drops a whole hook by name, and tells whether there was one.
pub fn unset_hook_by_name(cfg: &mut HooksConfig, name: &str) -> (removed: bool)
    ensures
        removed == old(cfg).deep_view().contains_key(name@),
        final(cfg).deep_view() == old(cfg).deep_view().remove(name@),
{
    cfg.hooks.remove(name).is_some()
}

/// Sets `key` to `value` in the private layer.
pub fn write_private(cfg: &mut PrivateConfig, key: PrivateKey, value: String)
    ensures
        final(cfg).deep_view() == change_private(
            old(cfg).deep_view(),
            key.deep_view(),
            Some(value@),
        ),
{
    apply_private(cfg, key, Some(value));
}

/// Unsets `key` in the private layer.
pub fn unset_private(cfg: &mut PrivateConfig, key: PrivateKey)
    ensures
        final(cfg).deep_view() == change_private(old(cfg).deep_view(), key.deep_view(), None),
{
    apply_private(cfg, key, None);
}

/// What a file holds, from what was read: a missing file holds nothing.
pub open spec fn loaded<V>(file: Option<Map<Text, V>>) -> Map<Text, V> {
    match file {
        Some(m) => m,
        None => Map::empty(),
    }
}

/// The manifest, from what was read: `repos.toml` if it is there, otherwise
/// the legacy single file, otherwise nothing.
pub fn load_shared(repos: Option<SharedConfig>, legacy: Option<SharedConfig>) -> (r: SharedConfig)
    ensures
        r.deep_view() == loaded(first_of(repos.deep_view(), legacy.deep_view())),
{
    match repos {
        Some(c) => c,
        None => match legacy {
            Some(c) => c,
            None => SharedConfig::default(),
        },
    }
}

/// The rules, from what was read: a missing file holds none.
pub fn load_rules(file: Option<RulesConfig>) -> (r: RulesConfig)
    ensures
        r.deep_view() == loaded(file.deep_view()),
{
    match file {
        Some(c) => c,
        None => RulesConfig::default(),
    }
}

/// The hooks, from what was read: a missing file holds none.
pub fn load_hooks(file: Option<HooksConfig>) -> (r: HooksConfig)
    ensures
        r.deep_view() == loaded(file.deep_view()),
{
    match file {
        Some(c) => c,
        None => HooksConfig::default(),
    }
}

/// The private layer, from what was read: a missing file holds nothing.
pub fn load_private(file: Option<PrivateConfig>) -> (r: PrivateConfig)
    ensures
        r.deep_view() == loaded(file.deep_view()),
{
    match file {
        Some(c) => c,
        None => PrivateConfig::default(),
    }
}

/// Where saving the manifest writes, and which file it removes afterwards.
#[derive(Debug)]
pub struct SavePlan {
    /// The file that is written.
    pub write: String,
    /// The file that is then removed.
    pub remove: Option<String>,
}

/// The file that goes once the manifest is written.
pub open spec fn outdated(paths: EnvPathsModel, legacy_exists: bool) -> Option<Text> {
    if legacy_exists {
        Some(paths.legacy_shared_file())
    } else {
        None
    }
}

/// The manifest is always saved to `repos.toml`; a legacy file that is still
/// around goes once the new one is written.
pub fn save_shared(paths: &EnvPaths, legacy_exists: bool) -> (r: SavePlan)
    ensures
        r.write@ == paths.deep_view().repos_file(),
        r.remove.deep_view() == outdated(paths.deep_view(), legacy_exists),
{
    SavePlan {
        write: paths.repos_file(),
        remove: if legacy_exists {
            Some(paths.legacy_shared_file())
        } else {
            None
        },
    }
}

// --- laws -------------------------------------------------------------------

/// The paths of a list that is written with commas between them.
pub open spec fn plain_paths(ps: Seq<Text>) -> bool {
    forall|i: int| #![trigger ps[i]]
        0 <= i < ps.len() ==> ps[i].len() > 0 && !ps[i].contains(',') && text::trimmed(
            ps[i],
            Class::White,
        ) == ps[i]
}

proof fn lemma_nonblank(parts: Seq<Text>)
    requires
        forall|i: int| 0 <= i < parts.len() ==> !(#[trigger] parts[i]).contains(','),
    ensures
        plain_paths(nonblank(parts)),
    decreases parts.len(),
{
    if parts.len() > 0 {
        assert forall|i: int| 0 <= i < parts.drop_last().len() implies !(
        #[trigger] parts.drop_last()[i]).contains(',') by {
            assert(!parts[i].contains(','));
        }
        lemma_nonblank(parts.drop_last());
        text::lemma_trimmed(parts.last(), Class::White);
        assert(!parts[parts.len() - 1].contains(','));
        let q = nonblank(parts);
        assert forall|i: int| #![trigger q[i]] 0 <= i < q.len() implies q[i].len() > 0
            && !q[i].contains(',') && text::trimmed(q[i], Class::White) == q[i] by {
            if i < nonblank(parts.drop_last()).len() {
                assert(q[i] == nonblank(parts.drop_last())[i]);
            }
        }
    }
}

proof fn lemma_nonblank_fixed(ps: Seq<Text>)
    requires
        plain_paths(ps),
    ensures
        nonblank(ps) == ps,
    decreases ps.len(),
{
    if ps.len() > 0 {
        assert forall|i: int| #![trigger ps.drop_last()[i]]
            0 <= i < ps.drop_last().len() implies ps.drop_last()[i].len() > 0
            && !ps.drop_last()[i].contains(',') && text::trimmed(ps.drop_last()[i], Class::White)
            == ps.drop_last()[i] by {
            assert(ps.drop_last()[i] == ps[i]);
        }
        lemma_nonblank_fixed(ps.drop_last());
        assert(ps[ps.len() - 1] == ps.last());
        assert(ps.drop_last().push(ps.last()) =~= ps);
    } else {
        assert(nonblank(ps) =~= ps);
    }
}

/// A parsed path list holds trimmed, non-empty paths without commas, and
/// writing such a list with commas and parsing it again gives it back.
pub proof fn law_paths_round_trip(s: Text, ps: Seq<Text>)
    ensures
        plain_paths(parsed_paths(s)),
        plain_paths(ps) ==> parsed_paths(text::joined(ps, seq![','])) == ps,
        parsed_paths(text::joined(parsed_paths(s), seq![','])) == parsed_paths(s),
{
    text::lemma_split_joined(s, ',');
    lemma_nonblank(text::split_on(s, ','));
    lemma_paths_parse_back(parsed_paths(s));
    if plain_paths(ps) {
        lemma_paths_parse_back(ps);
    }
}

proof fn lemma_paths_parse_back(ps: Seq<Text>)
    requires
        plain_paths(ps),
    ensures
        parsed_paths(text::joined(ps, seq![','])) == ps,
{
    if ps.len() == 0 {
        let none = Seq::<char>::empty();
        assert(text::joined(ps, seq![',']) =~= none);
        assert(text::split_on(none, ',') =~= seq![none]);
        let one = seq![none];
        assert(text::trimmed(one.last(), Class::White).len() == 0);
        assert(nonblank(one) =~= nonblank(one.drop_last()));
        assert(nonblank(one) =~= ps);
    } else {
        text::lemma_joined_split(ps, ',');
        lemma_nonblank_fixed(ps);
    }
}

/// A single recorded value, as a list of parts.
pub open spec fn one(v: Option<Text>) -> Option<Seq<Text>> {
    match v {
        Some(t) => Some(seq![t]),
        None => None,
    }
}

/// A list of paths; the empty list counts as nothing recorded.
pub open spec fn some_paths(ps: Seq<Text>) -> Option<Seq<Text>> {
    if ps.len() == 0 {
        None
    } else {
        Some(ps)
    }
}

/// What a shared repo records under a key.
pub open spec fn repo_field(e: SharedRepoModel, key: SharedKeyModel) -> Option<Seq<Text>> {
    match key {
        SharedKeyModel::Url(_) => one(e.url),
        SharedKeyModel::At(_) => one(e.at),
        SharedKeyModel::Paths(_) => some_paths(e.paths),
        SharedKeyModel::Branchtype(_, b) => one(e.branchtypes.get(b)),
        _ => None,
    }
}

/// What a private repo records under a key.
pub open spec fn private_field(e: PrivateRepoModel, key: PrivateKeyModel) -> Option<Seq<Text>> {
    match key {
        PrivateKeyModel::Auth(_, AuthField::SshKeyPath) => one(e.key),
        PrivateKeyModel::Auth(_, AuthField::CredentialHelper) => one(e.helper),
        PrivateKeyModel::Auth(_, AuthField::TokenRef) => one(e.token),
        PrivateKeyModel::AtOverride(_) => one(e.at),
        PrivateKeyModel::PathsOverride(_) => some_paths(e.paths),
        PrivateKeyModel::BranchtypeOverride(_, b) => one(e.branchtypes.get(b)),
    }
}

/// What a rule records in a field.
pub open spec fn rule_value(e: SharedRuleModel, field: RuleField) -> Option<Text> {
    match field {
        RuleField::Pattern => e.pattern,
        RuleField::Predicate => e.predicate,
        RuleField::Message => e.message,
    }
}

/// What a hook records in a field.
pub open spec fn hook_value(e: SharedHookModel, field: HookField) -> Option<Text> {
    match field {
        HookField::Match => e.match_pattern,
        HookField::Exec => e.exec_command,
        HookField::When => e.when,
    }
}

/// What the manifest records under a key, as the list of its parts.
pub open spec fn read_repo(m: Map<Text, SharedRepoModel>, key: SharedKeyModel) -> Option<Seq<Text>> {
    if m.contains_key(key.repo()->0) {
        repo_field(m[key.repo()->0], key)
    } else {
        None
    }
}

/// Whether the manifest records something of everything that it names.
pub open spec fn no_empty_repo(m: Map<Text, SharedRepoModel>) -> bool {
    forall|n: Text| #[trigger] m.contains_key(n) ==> !m[n].is_empty()
}

/// What is written to the manifest is read back, and what is unset reads as nothing.
pub proof fn law_repo_read_back(m: Map<Text, SharedRepoModel>, key: SharedKeyModel, v: Text)
    requires
        key.repo() is Some,
    ensures
        read_repo(change_repo(m, key, Some(v)), key) == (if key is Paths {
            some_paths(parsed_paths(v))
        } else {
            Some(seq![v])
        }),
        read_repo(change_repo(m, key, None), key) is None,
{
    let e = entry_or(m, key.repo()->0, SharedRepoModel::empty());
    if let SharedKeyModel::Branchtype(_, b) = key {
        assert(change_repo_field(e, key, Some(v)).branchtypes.contains_key(b));
        assert(!Map::<Text, Text>::empty().contains_key(b));
    }
}

/// A change to one key of the manifest leaves every other key as it was.
pub proof fn law_repo_frame(
    m: Map<Text, SharedRepoModel>,
    key: SharedKeyModel,
    other: SharedKeyModel,
    v: Option<Text>,
)
    requires
        key.repo() is Some,
        other.repo() is Some,
        key != other,
    ensures
        read_repo(change_repo(m, key, v), other) == read_repo(m, other),
{
    let e = entry_or(m, key.repo()->0, SharedRepoModel::empty());
    let f = change_repo_field(e, key, v);
    if let SharedKeyModel::Branchtype(_, b) = other {
        if f.is_empty() {
            assert(!f.branchtypes.contains_key(b));
        }
        assert(!Map::<Text, Text>::empty().contains_key(b));
        assert(other.repo()->0 == key.repo()->0 ==> f.branchtypes.get(b) == e.branchtypes.get(b));
    }
}

/// Of two changes to the same key of the manifest, the last one counts.
pub proof fn law_repo_last_change(
    m: Map<Text, SharedRepoModel>,
    key: SharedKeyModel,
    v: Option<Text>,
    w: Option<Text>,
)
    requires
        key.repo() is Some,
    ensures
        change_repo(change_repo(m, key, v), key, w) == change_repo(m, key, w),
{
    let n = key.repo()->0;
    let a = entry_or(m, n, SharedRepoModel::empty());
    let b = change_repo_field(a, key, v);
    assert(change_repo_field(b, key, w) =~= change_repo_field(a, key, w));
    let once = change_repo(m, key, v);
    if b.is_empty() {
        assert(b =~= SharedRepoModel::empty());
        assert(m.remove(n).remove(n) =~= m.remove(n));
    }
    assert(change_repo(once, key, w) =~= change_repo(m, key, w));
}

/// Unsetting a key of the manifest undoes setting it where it was not set before.
pub proof fn law_repo_unset_undoes(m: Map<Text, SharedRepoModel>, key: SharedKeyModel, v: Text)
    requires
        key.repo() is Some,
        no_empty_repo(m),
        read_repo(m, key) is None,
    ensures
        change_repo(change_repo(m, key, Some(v)), key, None) == m,
{
    law_repo_last_change(m, key, Some(v), None);
    let n = key.repo()->0;
    let a = entry_or(m, n, SharedRepoModel::empty());
    assert(change_repo_field(a, key, None) =~= a);
    if m.contains_key(n) {
        assert(m.insert(n, a) =~= m);
    } else {
        assert(a.is_empty());
        assert(m.remove(n) =~= m);
    }
}

/// No change leaves an entry behind of which nothing is recorded.
pub proof fn law_repo_no_empty(m: Map<Text, SharedRepoModel>, key: SharedKeyModel, v: Option<Text>)
    requires
        key.repo() is Some,
        no_empty_repo(m),
    ensures
        no_empty_repo(change_repo(m, key, v)),
{
}

/// What the private layer records under a key, as the list of its parts.
pub open spec fn read_private(m: Map<Text, PrivateRepoModel>, key: PrivateKeyModel) -> Option<Seq<Text>> {
    if m.contains_key(key.repo()) {
        private_field(m[key.repo()], key)
    } else {
        None
    }
}

/// Whether the private layer records something of everything that it names.
pub open spec fn no_empty_private(m: Map<Text, PrivateRepoModel>) -> bool {
    forall|n: Text| #[trigger] m.contains_key(n) ==> !m[n].is_empty()
}

/// What is written to the private layer is read back, and what is unset reads as nothing.
pub proof fn law_private_read_back(m: Map<Text, PrivateRepoModel>, key: PrivateKeyModel, v: Text)
    ensures
        read_private(change_private(m, key, Some(v)), key) == (if key is PathsOverride {
            some_paths(parsed_paths(v))
        } else {
            Some(seq![v])
        }),
        read_private(change_private(m, key, None), key) is None,
{
    let e = entry_or(m, key.repo(), PrivateRepoModel::empty());
    if let PrivateKeyModel::BranchtypeOverride(_, b) = key {
        assert(change_private_field(e, key, Some(v)).branchtypes.contains_key(b));
        assert(!Map::<Text, Text>::empty().contains_key(b));
    }
}

/// A change to one key of the private layer leaves every other key as it was.
pub proof fn law_private_frame(
    m: Map<Text, PrivateRepoModel>,
    key: PrivateKeyModel,
    other: PrivateKeyModel,
    v: Option<Text>,
)
    requires
        key != other,
    ensures
        read_private(change_private(m, key, v), other) == read_private(m, other),
{
    let e = entry_or(m, key.repo(), PrivateRepoModel::empty());
    let f = change_private_field(e, key, v);
    if let PrivateKeyModel::BranchtypeOverride(_, b) = other {
        if f.is_empty() {
            assert(!f.branchtypes.contains_key(b));
        }
        assert(!Map::<Text, Text>::empty().contains_key(b));
        assert(other.repo() == key.repo() ==> f.branchtypes.get(b) == e.branchtypes.get(b));
    }
}

/// Of two changes to the same key of the private layer, the last one counts.
pub proof fn law_private_last_change(
    m: Map<Text, PrivateRepoModel>,
    key: PrivateKeyModel,
    v: Option<Text>,
    w: Option<Text>,
)
    ensures
        change_private(change_private(m, key, v), key, w) == change_private(m, key, w),
{
    let n = key.repo();
    let a = entry_or(m, n, PrivateRepoModel::empty());
    let b = change_private_field(a, key, v);
    assert(change_private_field(b, key, w) =~= change_private_field(a, key, w));
    let once = change_private(m, key, v);
    if b.is_empty() {
        assert(b =~= PrivateRepoModel::empty());
        assert(m.remove(n).remove(n) =~= m.remove(n));
    }
    assert(change_private(once, key, w) =~= change_private(m, key, w));
}

/// Unsetting a key of the private layer undoes setting it where it was not set before.
pub proof fn law_private_unset_undoes(m: Map<Text, PrivateRepoModel>, key: PrivateKeyModel, v: Text)
    requires
        no_empty_private(m),
        read_private(m, key) is None,
    ensures
        change_private(change_private(m, key, Some(v)), key, None) == m,
{
    law_private_last_change(m, key, Some(v), None);
    let n = key.repo();
    let a = entry_or(m, n, PrivateRepoModel::empty());
    assert(change_private_field(a, key, None) =~= a);
    if m.contains_key(n) {
        assert(m.insert(n, a) =~= m);
    } else {
        assert(a.is_empty());
        assert(m.remove(n) =~= m);
    }
}

/// No change leaves an entry behind of which nothing is recorded.
pub proof fn law_private_no_empty(m: Map<Text, PrivateRepoModel>, key: PrivateKeyModel, v: Option<Text>)
    requires
        no_empty_private(m),
    ensures
        no_empty_private(change_private(m, key, v)),
{
}

/// What the rules file records under a key, as the list of its parts.
pub open spec fn read_rule(m: Map<Text, SharedRuleModel>, name: Text, field: RuleField) -> Option<Seq<Text>> {
    if m.contains_key(name) {
        one(rule_value(m[name], field))
    } else {
        None
    }
}

/// Whether the rules file records something of everything that it names.
pub open spec fn no_empty_rule(m: Map<Text, SharedRuleModel>) -> bool {
    forall|n: Text| #[trigger] m.contains_key(n) ==> !m[n].is_empty()
}

/// What is written to the rules file is read back, and what is unset reads as nothing.
pub proof fn law_rule_read_back(m: Map<Text, SharedRuleModel>, name: Text, field: RuleField, v: Text)
    ensures
        read_rule(change_rule(m, name, field, Some(v)), name, field) == Some(seq![v]),
        read_rule(change_rule(m, name, field, None), name, field) is None,
{
}

/// A change to one key of the rules file leaves every other key as it was.
pub proof fn law_rule_frame(
    m: Map<Text, SharedRuleModel>,
    name: Text,
    field: RuleField,
    other: Text,
    other_field: RuleField,
    v: Option<Text>,
)
    requires
        (name, field) != (other, other_field),
    ensures
        read_rule(change_rule(m, name, field, v), other, other_field) == read_rule(m, other, other_field),
{
}

/// Of two changes to the same key of the rules file, the last one counts.
pub proof fn law_rule_last_change(
    m: Map<Text, SharedRuleModel>,
    name: Text,
    field: RuleField,
    v: Option<Text>,
    w: Option<Text>,
)
    ensures
        change_rule(change_rule(m, name, field, v), name, field, w) == change_rule(m, name, field, w),
{
    let n = name;
    let a = entry_or(m, n, SharedRuleModel::empty());
    let b = change_rule_field(a, field, v);
    assert(change_rule_field(b, field, w) =~= change_rule_field(a, field, w));
    let once = change_rule(m, name, field, v);
    if b.is_empty() {
        assert(b =~= SharedRuleModel::empty());
        assert(m.remove(n).remove(n) =~= m.remove(n));
    }
    assert(change_rule(once, name, field, w) =~= change_rule(m, name, field, w));
}

/// Unsetting a key of the rules file undoes setting it where it was not set before.
pub proof fn law_rule_unset_undoes(m: Map<Text, SharedRuleModel>, name: Text, field: RuleField, v: Text)
    requires
        no_empty_rule(m),
        read_rule(m, name, field) is None,
    ensures
        change_rule(change_rule(m, name, field, Some(v)), name, field, None) == m,
{
    law_rule_last_change(m, name, field, Some(v), None);
    let n = name;
    let a = entry_or(m, n, SharedRuleModel::empty());
    assert(change_rule_field(a, field, None) =~= a);
    if m.contains_key(n) {
        assert(m.insert(n, a) =~= m);
    } else {
        assert(a.is_empty());
        assert(m.remove(n) =~= m);
    }
}

/// No change leaves an entry behind of which nothing is recorded.
pub proof fn law_rule_no_empty(m: Map<Text, SharedRuleModel>, name: Text, field: RuleField, v: Option<Text>)
    requires
        no_empty_rule(m),
    ensures
        no_empty_rule(change_rule(m, name, field, v)),
{
}

/// What the hooks file records under a key, as the list of its parts.
pub open spec fn read_hook(m: Map<Text, SharedHookModel>, name: Text, field: HookField) -> Option<Seq<Text>> {
    if m.contains_key(name) {
        one(hook_value(m[name], field))
    } else {
        None
    }
}

/// Whether the hooks file records something of everything that it names.
pub open spec fn no_empty_hook(m: Map<Text, SharedHookModel>) -> bool {
    forall|n: Text| #[trigger] m.contains_key(n) ==> !m[n].is_empty()
}

/// What is written to the hooks file is read back, and what is unset reads as nothing.
pub proof fn law_hook_read_back(m: Map<Text, SharedHookModel>, name: Text, field: HookField, v: Text)
    ensures
        read_hook(change_hook(m, name, field, Some(v)), name, field) == Some(seq![v]),
        read_hook(change_hook(m, name, field, None), name, field) is None,
{
}

/// A change to one key of the hooks file leaves every other key as it was.
pub proof fn law_hook_frame(
    m: Map<Text, SharedHookModel>,
    name: Text,
    field: HookField,
    other: Text,
    other_field: HookField,
    v: Option<Text>,
)
    requires
        (name, field) != (other, other_field),
    ensures
        read_hook(change_hook(m, name, field, v), other, other_field) == read_hook(m, other, other_field),
{
}

/// Of two changes to the same key of the hooks file, the last one counts.
pub proof fn law_hook_last_change(
    m: Map<Text, SharedHookModel>,
    name: Text,
    field: HookField,
    v: Option<Text>,
    w: Option<Text>,
)
    ensures
        change_hook(change_hook(m, name, field, v), name, field, w) == change_hook(m, name, field, w),
{
    let n = name;
    let a = entry_or(m, n, SharedHookModel::empty());
    let b = change_hook_field(a, field, v);
    assert(change_hook_field(b, field, w) =~= change_hook_field(a, field, w));
    let once = change_hook(m, name, field, v);
    if b.is_empty() {
        assert(b =~= SharedHookModel::empty());
        assert(m.remove(n).remove(n) =~= m.remove(n));
    }
    assert(change_hook(once, name, field, w) =~= change_hook(m, name, field, w));
}

/// Unsetting a key of the hooks file undoes setting it where it was not set before.
pub proof fn law_hook_unset_undoes(m: Map<Text, SharedHookModel>, name: Text, field: HookField, v: Text)
    requires
        no_empty_hook(m),
        read_hook(m, name, field) is None,
    ensures
        change_hook(change_hook(m, name, field, Some(v)), name, field, None) == m,
{
    law_hook_last_change(m, name, field, Some(v), None);
    let n = name;
    let a = entry_or(m, n, SharedHookModel::empty());
    assert(change_hook_field(a, field, None) =~= a);
    if m.contains_key(n) {
        assert(m.insert(n, a) =~= m);
    } else {
        assert(a.is_empty());
        assert(m.remove(n) =~= m);
    }
}

/// No change leaves an entry behind of which nothing is recorded.
pub proof fn law_hook_no_empty(m: Map<Text, SharedHookModel>, name: Text, field: HookField, v: Option<Text>)
    requires
        no_empty_hook(m),
    ensures
        no_empty_hook(change_hook(m, name, field, v)),
{
}

} // verus!
