//! The env keyspace.
//!
//! Every legal key of the config is enumerated here, tagged by its type with
//! shared-vs-private: auth settings exist only as `PrivateKey`, repo URLs only
//! as `SharedKey`, so that auth in the shared layer and a URL in the private
//! layer cannot be written down. Three categories (`at`, `paths`,
//! `branchtypes`) are shared by default and may be overridden per machine in
//! the private layer; each has a sibling variant on `PrivateKey`.

use crate::text::{self, outcome, Text};
use vstd::prelude::*;

verus! {

// --- names ------------------------------------------------------------------

/// A character that may stand in a name.
pub open spec fn name_char(c: char) -> bool {
    c != '.' && c != '/' && !text::white_space(c)
}

/// A non-empty text without `.`, `/` or white space.
pub open spec fn valid_name(s: Text) -> bool {
    s.len() > 0 && forall|i: int| 0 <= i < s.len() ==> name_char(#[trigger] s[i])
}

/// A name, or the error if it is not valid.
pub open spec fn checked_name(s: Text, e: KeyErrorModel) -> Result<Text, KeyErrorModel> {
    if valid_name(s) {
        Ok(s)
    } else {
        Err(e)
    }
}

/// Whether `s` is a valid name.
fn is_valid_name(s: &str) -> (r: bool)
    ensures
        r == valid_name(s@),
{
    let cs: Vec<char> = text::chars_of(s);
    if cs.len() == 0 {
        return false;
    }
    for i in 0..cs.len()
        invariant
            cs@ == s@,
            forall|j: int| 0 <= j < i ==> name_char(#[trigger] s@[j]),
    {
        let c: char = cs[i];
        if c == '.' || c == '/' || text::is_white_space(c) {
            assert(!name_char(s@[i as int]));
            return false;
        }
    }
    true
}

/// A repo alias. Names live in dotted-path keys, so `.`, slashes, and
/// whitespace are rejected at construction.
#[derive(Eq, PartialEq, Hash, Debug, Ord, PartialOrd)]
pub struct RepoName(String);

impl Clone for RepoName {
    fn clone(&self) -> (r: Self)
        ensures
            r == *self,
    {
        proof {
            use_type_invariant(self);
        }
        RepoName(self.0.clone())
    }
}

impl DeepView for RepoName {
    type V = Text;

    closed spec fn deep_view(&self) -> Text {
        self.0@
    }
}

impl RepoName {
    #[verifier::type_invariant]
    spec fn valid(self) -> bool {
        valid_name(self.0@)
    }

    /// Accepts `s` if it is a valid name.
    pub fn new(s: &str) -> (r: Result<Self, KeyError>)
        ensures
            outcome(r) == checked_name(s@, KeyErrorModel::InvalidRepoName(s@)),
    {
        if is_valid_name(s) {
            Ok(RepoName(s.to_owned()))
        } else {
            Err(KeyError::InvalidRepoName(s.to_owned()))
        }
    }

    /// The name as text.
    pub fn as_str(&self) -> (r: &str)
        ensures
            r@ == self.deep_view(),
            valid_name(r@),
    {
        proof {
            use_type_invariant(self);
        }
        self.0.as_str()
    }
}

/// A branchtype name: the identifier that stands for a branch, such as the
/// `dev` that maps to `develop`.
#[derive(Eq, PartialEq, Hash, Debug, Ord, PartialOrd)]
pub struct Branchtype(String);

impl Clone for Branchtype {
    fn clone(&self) -> (r: Self)
        ensures
            r == *self,
    {
        proof {
            use_type_invariant(self);
        }
        Branchtype(self.0.clone())
    }
}

impl DeepView for Branchtype {
    type V = Text;

    closed spec fn deep_view(&self) -> Text {
        self.0@
    }
}

impl Branchtype {
    #[verifier::type_invariant]
    spec fn valid(self) -> bool {
        valid_name(self.0@)
    }

    /// Accepts `s` if it is a valid name.
    pub fn new(s: &str) -> (r: Result<Self, KeyError>)
        ensures
            outcome(r) == checked_name(s@, KeyErrorModel::InvalidBranchtype(s@)),
    {
        if is_valid_name(s) {
            Ok(Branchtype(s.to_owned()))
        } else {
            Err(KeyError::InvalidBranchtype(s.to_owned()))
        }
    }

    /// The name as text.
    pub fn as_str(&self) -> (r: &str)
        ensures
            r@ == self.deep_view(),
            valid_name(r@),
    {
        proof {
            use_type_invariant(self);
        }
        self.0.as_str()
    }
}

/// A workspace-level rule name. Same character constraints as `RepoName` so
/// the dotted-path keyspace stays uniform.
#[derive(Eq, PartialEq, Hash, Debug, Ord, PartialOrd)]
pub struct RuleName(String);

impl Clone for RuleName {
    fn clone(&self) -> (r: Self)
        ensures
            r == *self,
    {
        proof {
            use_type_invariant(self);
        }
        RuleName(self.0.clone())
    }
}

impl DeepView for RuleName {
    type V = Text;

    closed spec fn deep_view(&self) -> Text {
        self.0@
    }
}

impl RuleName {
    #[verifier::type_invariant]
    spec fn valid(self) -> bool {
        valid_name(self.0@)
    }

    /// Accepts `s` if it is a valid name.
    pub fn new(s: &str) -> (r: Result<Self, KeyError>)
        ensures
            outcome(r) == checked_name(s@, KeyErrorModel::InvalidRuleName(s@)),
    {
        if is_valid_name(s) {
            Ok(RuleName(s.to_owned()))
        } else {
            Err(KeyError::InvalidRuleName(s.to_owned()))
        }
    }

    /// The name as text.
    pub fn as_str(&self) -> (r: &str)
        ensures
            r@ == self.deep_view(),
            valid_name(r@),
    {
        proof {
            use_type_invariant(self);
        }
        self.0.as_str()
    }
}

/// A workspace-level hook name. Same character constraints as `RepoName`.
#[derive(Eq, PartialEq, Hash, Debug, Ord, PartialOrd)]
pub struct HookName(String);

impl Clone for HookName {
    fn clone(&self) -> (r: Self)
        ensures
            r == *self,
    {
        proof {
            use_type_invariant(self);
        }
        HookName(self.0.clone())
    }
}

impl DeepView for HookName {
    type V = Text;

    closed spec fn deep_view(&self) -> Text {
        self.0@
    }
}

impl HookName {
    #[verifier::type_invariant]
    spec fn valid(self) -> bool {
        valid_name(self.0@)
    }

    /// Accepts `s` if it is a valid name.
    pub fn new(s: &str) -> (r: Result<Self, KeyError>)
        ensures
            outcome(r) == checked_name(s@, KeyErrorModel::InvalidHookName(s@)),
    {
        if is_valid_name(s) {
            Ok(HookName(s.to_owned()))
        } else {
            Err(KeyError::InvalidHookName(s.to_owned()))
        }
    }

    /// The name as text.
    pub fn as_str(&self) -> (r: &str)
        ensures
            r@ == self.deep_view(),
            valid_name(r@),
    {
        proof {
            use_type_invariant(self);
        }
        self.0.as_str()
    }
}

// --- fields and layers ------------------------------------------------------

/// One field of a rule.
#[derive(Clone, Copy, Eq, PartialEq, Structural, Debug)]
pub enum RuleField {
    /// Regex matched against the cascade command.
    Pattern,
    /// Shell command that allows or denies.
    Predicate,
    /// Text shown on denial.
    Message,
}

impl DeepView for RuleField {
    type V = RuleField;

    open spec fn deep_view(&self) -> RuleField {
        *self
    }
}

impl RuleField {
    /// The name of the field in a dotted key.
    pub open spec fn text(self) -> Text {
        match self {
            Self::Pattern => "pattern"@,
            Self::Predicate => "predicate"@,
            Self::Message => "message"@,
        }
    }

    /// The name of the field in a dotted key.
    pub fn as_str(self) -> (r: &'static str)
        ensures
            r@ == self.text(),
    {
        match self {
            Self::Pattern => "pattern",
            Self::Predicate => "predicate",
            Self::Message => "message",
        }
    }
}

/// One field of a hook.
#[derive(Clone, Copy, Eq, PartialEq, Structural, Debug)]
pub enum HookField {
    /// Regex matched against the invocation.
    Match,
    /// Shell command that runs.
    Exec,
    /// Side of the verb on which the hook fires.
    When,
}

impl DeepView for HookField {
    type V = HookField;

    open spec fn deep_view(&self) -> HookField {
        *self
    }
}

impl HookField {
    /// The name of the field in a dotted key.
    pub open spec fn text(self) -> Text {
        match self {
            Self::Match => "match"@,
            Self::Exec => "exec"@,
            Self::When => "when"@,
        }
    }

    /// The name of the field in a dotted key.
    pub fn as_str(self) -> (r: &'static str)
        ensures
            r@ == self.text(),
    {
        match self {
            Self::Match => "match",
            Self::Exec => "exec",
            Self::When => "when",
        }
    }
}

/// One auth setting of a repo.
#[derive(Clone, Copy, Eq, PartialEq, Structural, Debug)]
pub enum AuthField {
    /// Path of the ssh key to use.
    SshKeyPath,
    /// Credential helper.
    CredentialHelper,
    /// Reference to a token.
    TokenRef,
}

impl DeepView for AuthField {
    type V = AuthField;

    open spec fn deep_view(&self) -> AuthField {
        *self
    }
}

impl AuthField {
    /// The name of the field in a dotted key.
    pub open spec fn text(self) -> Text {
        match self {
            Self::SshKeyPath => "key"@,
            Self::CredentialHelper => "helper"@,
            Self::TokenRef => "token"@,
        }
    }

    /// The name of the field in a dotted key.
    pub fn as_str(self) -> (r: &'static str)
        ensures
            r@ == self.text(),
    {
        match self {
            Self::SshKeyPath => "key",
            Self::CredentialHelper => "helper",
            Self::TokenRef => "token",
        }
    }
}

/// Which env layer a write targets.
#[derive(Clone, Copy, Eq, PartialEq, Structural, Debug)]
pub enum Layer {
    /// `.xen/` at the workspace root, committed to git.
    Shared,
    /// `~/.xen/`, never committed.
    Private,
}

impl DeepView for Layer {
    type V = Layer;

    open spec fn deep_view(&self) -> Layer {
        *self
    }
}

impl Layer {
    /// The name of the layer in messages.
    pub open spec fn text(self) -> Text {
        match self {
            Self::Shared => "shared"@,
            Self::Private => "private"@,
        }
    }

    /// The name of the layer in messages.
    pub fn name(self) -> (r: &'static str)
        ensures
            r@ == self.text(),
    {
        match self {
            Self::Shared => "shared",
            Self::Private => "private",
        }
    }
}

// --- keys -------------------------------------------------------------------

/// Keys that live in the **shared** layer (`.xen/`, committed to git).
#[derive(Clone, Eq, PartialEq, Debug)]
pub enum SharedKey {
    /// Where the repo is cloned from.
    Url(RepoName),
    /// Where the repo materializes, relative to the workspace root.
    At(RepoName),
    /// The branch that a branchtype stands for.
    Branchtype(RepoName, Branchtype),
    /// The sparse paths.
    Paths(RepoName),
    /// A field of a cascade rule.
    Rule(RuleName, RuleField),
    /// A field of a verb hook.
    Hook(HookName, HookField),
}

/// Keys that live in the **private** layer (`~/.xen/`, never committed).
#[derive(Clone, Eq, PartialEq, Debug)]
pub enum PrivateKey {
    /// An auth setting.
    Auth(RepoName, AuthField),
    /// Per-machine placement.
    AtOverride(RepoName),
    /// Per-machine branchtype mapping.
    BranchtypeOverride(RepoName, Branchtype),
    /// Per-machine sparse paths.
    PathsOverride(RepoName),
}

/// A key together with its layer. Construction is the only place where
/// shared-vs-private gets decided.
#[derive(Clone, Eq, PartialEq, Debug)]
pub enum Key {
    /// A key of the shared layer.
    Shared(SharedKey),
    /// A key of the private layer.
    Private(PrivateKey),
}

/// Why a key or a name was refused.
#[derive(Debug)]
pub enum KeyError {
    /// Not a valid repo name.
    InvalidRepoName(String),
    /// Not a valid branchtype name.
    InvalidBranchtype(String),
    /// Not a valid rule name.
    InvalidRuleName(String),
    /// Not a valid hook name.
    InvalidHookName(String),
    /// No key has this shape.
    Unknown(String),
    /// The key exists, but not in the layer that was asked for.
    WrongLayer(String, &'static str),
}

/// What a shared key stands for.
pub enum SharedKeyModel {
    Url(Text),
    At(Text),
    Branchtype(Text, Text),
    Paths(Text),
    Rule(Text, RuleField),
    Hook(Text, HookField),
}

/// What a private key stands for.
pub enum PrivateKeyModel {
    Auth(Text, AuthField),
    AtOverride(Text),
    BranchtypeOverride(Text, Text),
    PathsOverride(Text),
}

/// What a key stands for.
pub enum KeyModel {
    Shared(SharedKeyModel),
    Private(PrivateKeyModel),
}

/// What a key error stands for.
pub enum KeyErrorModel {
    InvalidRepoName(Text),
    InvalidBranchtype(Text),
    InvalidRuleName(Text),
    InvalidHookName(Text),
    Unknown(Text),
    WrongLayer(Text, Text),
}

impl DeepView for SharedKey {
    type V = SharedKeyModel;

    open spec fn deep_view(&self) -> SharedKeyModel {
        match self {
            SharedKey::Url(r) => SharedKeyModel::Url(r.deep_view()),
            SharedKey::At(r) => SharedKeyModel::At(r.deep_view()),
            SharedKey::Branchtype(r, b) => SharedKeyModel::Branchtype(r.deep_view(), b.deep_view()),
            SharedKey::Paths(r) => SharedKeyModel::Paths(r.deep_view()),
            SharedKey::Rule(n, f) => SharedKeyModel::Rule(n.deep_view(), *f),
            SharedKey::Hook(n, f) => SharedKeyModel::Hook(n.deep_view(), *f),
        }
    }
}

impl DeepView for PrivateKey {
    type V = PrivateKeyModel;

    open spec fn deep_view(&self) -> PrivateKeyModel {
        match self {
            PrivateKey::Auth(r, f) => PrivateKeyModel::Auth(r.deep_view(), *f),
            PrivateKey::AtOverride(r) => PrivateKeyModel::AtOverride(r.deep_view()),
            PrivateKey::BranchtypeOverride(r, b) => PrivateKeyModel::BranchtypeOverride(
                r.deep_view(),
                b.deep_view(),
            ),
            PrivateKey::PathsOverride(r) => PrivateKeyModel::PathsOverride(r.deep_view()),
        }
    }
}

impl DeepView for Key {
    type V = KeyModel;

    open spec fn deep_view(&self) -> KeyModel {
        match self {
            Key::Shared(k) => KeyModel::Shared(k.deep_view()),
            Key::Private(k) => KeyModel::Private(k.deep_view()),
        }
    }
}

impl DeepView for KeyError {
    type V = KeyErrorModel;

    open spec fn deep_view(&self) -> KeyErrorModel {
        match self {
            KeyError::InvalidRepoName(s) => KeyErrorModel::InvalidRepoName(s@),
            KeyError::InvalidBranchtype(s) => KeyErrorModel::InvalidBranchtype(s@),
            KeyError::InvalidRuleName(s) => KeyErrorModel::InvalidRuleName(s@),
            KeyError::InvalidHookName(s) => KeyErrorModel::InvalidHookName(s@),
            KeyError::Unknown(s) => KeyErrorModel::Unknown(s@),
            KeyError::WrongLayer(s, l) => KeyErrorModel::WrongLayer(s@, l@),
        }
    }
}

impl KeyErrorModel {
    /// The text of the error.
    pub open spec fn message(self) -> Text {
        match self {
            KeyErrorModel::InvalidRepoName(s) => "invalid repo name: "@ + text::debug_text(s),
            KeyErrorModel::InvalidBranchtype(s) => "invalid branchtype: "@ + text::debug_text(s),
            KeyErrorModel::InvalidRuleName(s) => "invalid rule name: "@ + text::debug_text(s),
            KeyErrorModel::InvalidHookName(s) => "invalid hook name: "@ + text::debug_text(s),
            KeyErrorModel::Unknown(s) => "unknown key: "@ + text::debug_text(s),
            KeyErrorModel::WrongLayer(s, l) => "key "@ + text::debug_text(s)
                + " cannot be written to the "@ + l + " layer"@,
        }
    }
}

impl KeyError {
    /// The text of the error.
    pub fn message(&self) -> (r: String)
        ensures
            r@ == self.deep_view().message(),
    {
        match self {
            KeyError::InvalidRepoName(s) => text::cat(
                "invalid repo name: ",
                text::quoted(s.as_str()).as_str(),
            ),
            KeyError::InvalidBranchtype(s) => text::cat(
                "invalid branchtype: ",
                text::quoted(s.as_str()).as_str(),
            ),
            KeyError::InvalidRuleName(s) => text::cat(
                "invalid rule name: ",
                text::quoted(s.as_str()).as_str(),
            ),
            KeyError::InvalidHookName(s) => text::cat(
                "invalid hook name: ",
                text::quoted(s.as_str()).as_str(),
            ),
            KeyError::Unknown(s) => text::cat("unknown key: ", text::quoted(s.as_str()).as_str()),
            KeyError::WrongLayer(s, l) => {
                let mut m: String = text::cat("key ", text::quoted(s.as_str()).as_str());
                m.append(" cannot be written to the ");
                m.append(l);
                m.append(" layer");
                m
            },
        }
    }
}

// --- parsing ----------------------------------------------------------------

/// `k` if the repo name in it is valid.
pub open spec fn with_repo(repo: Text, k: KeyModel) -> Result<KeyModel, KeyErrorModel> {
    if valid_name(repo) {
        Ok(k)
    } else {
        Err(KeyErrorModel::InvalidRepoName(repo))
    }
}

/// `k` if the repo name and the branchtype in it are valid.
pub open spec fn with_repo_and_branchtype(repo: Text, bt: Text, k: KeyModel) -> Result<
    KeyModel,
    KeyErrorModel,
> {
    if !valid_name(repo) {
        Err(KeyErrorModel::InvalidRepoName(repo))
    } else if !valid_name(bt) {
        Err(KeyErrorModel::InvalidBranchtype(bt))
    } else {
        Ok(k)
    }
}

/// The auth setting that a field name stands for.
pub open spec fn auth_field(field: Text) -> Option<AuthField> {
    if field == "key"@ {
        Some(AuthField::SshKeyPath)
    } else if field == "helper"@ {
        Some(AuthField::CredentialHelper)
    } else if field == "token"@ {
        Some(AuthField::TokenRef)
    } else {
        None
    }
}

/// The key that a dotted repo key stands for in a layer.
pub open spec fn parsed_key(dotted: Text, layer: Layer) -> Result<KeyModel, KeyErrorModel> {
    let p = text::split_on(dotted, '.');
    if p.len() == 2 && p[1] == "url"@ {
        match layer {
            Layer::Shared => with_repo(p[0], KeyModel::Shared(SharedKeyModel::Url(p[0]))),
            Layer::Private => Err(KeyErrorModel::WrongLayer(dotted, "private"@)),
        }
    } else if p.len() == 2 && auth_field(p[1]) is Some {
        match layer {
            Layer::Shared => Err(KeyErrorModel::WrongLayer(dotted, "shared"@)),
            Layer::Private => with_repo(
                p[0],
                KeyModel::Private(PrivateKeyModel::Auth(p[0], auth_field(p[1])->0)),
            ),
        }
    } else if p.len() == 2 && p[1] == "at"@ {
        with_repo(
            p[0],
            match layer {
                Layer::Shared => KeyModel::Shared(SharedKeyModel::At(p[0])),
                Layer::Private => KeyModel::Private(PrivateKeyModel::AtOverride(p[0])),
            },
        )
    } else if p.len() == 2 && p[1] == "paths"@ {
        with_repo(
            p[0],
            match layer {
                Layer::Shared => KeyModel::Shared(SharedKeyModel::Paths(p[0])),
                Layer::Private => KeyModel::Private(PrivateKeyModel::PathsOverride(p[0])),
            },
        )
    } else if p.len() == 3 && p[1] == "branchtypes"@ {
        with_repo_and_branchtype(
            p[0],
            p[2],
            match layer {
                Layer::Shared => KeyModel::Shared(SharedKeyModel::Branchtype(p[0], p[2])),
                Layer::Private => KeyModel::Private(
                    PrivateKeyModel::BranchtypeOverride(p[0], p[2]),
                ),
            },
        )
    } else {
        Err(KeyErrorModel::Unknown(dotted))
    }
}

/// The rule field that a field name stands for.
pub open spec fn rule_field(field: Text) -> Option<RuleField> {
    if field == "pattern"@ {
        Some(RuleField::Pattern)
    } else if field == "predicate"@ {
        Some(RuleField::Predicate)
    } else if field == "message"@ {
        Some(RuleField::Message)
    } else {
        None
    }
}

/// The hook field that a field name stands for.
pub open spec fn hook_field(field: Text) -> Option<HookField> {
    if field == "match"@ {
        Some(HookField::Match)
    } else if field == "exec"@ {
        Some(HookField::Exec)
    } else if field == "when"@ {
        Some(HookField::When)
    } else {
        None
    }
}

/// The rule and the field that a dotted rule key stands for.
pub open spec fn parsed_rule(dotted: Text) -> Result<(Text, RuleField), KeyErrorModel> {
    let p = text::split_on(dotted, '.');
    if p.len() == 2 && rule_field(p[1]) is Some {
        if valid_name(p[0]) {
            Ok((p[0], rule_field(p[1])->0))
        } else {
            Err(KeyErrorModel::InvalidRuleName(p[0]))
        }
    } else {
        Err(KeyErrorModel::Unknown(dotted))
    }
}

/// The hook and the field that a dotted hook key stands for.
pub open spec fn parsed_hook(dotted: Text) -> Result<(Text, HookField), KeyErrorModel> {
    let p = text::split_on(dotted, '.');
    if p.len() == 2 && hook_field(p[1]) is Some {
        if valid_name(p[0]) {
            Ok((p[0], hook_field(p[1])->0))
        } else {
            Err(KeyErrorModel::InvalidHookName(p[0]))
        }
    } else {
        Err(KeyErrorModel::Unknown(dotted))
    }
}

/// The name that a key without a field stands for.
pub open spec fn parsed_bare_name(dotted: Text, e: KeyErrorModel) -> Result<Text, KeyErrorModel> {
    if dotted.contains('.') {
        Err(KeyErrorModel::Unknown(dotted))
    } else {
        checked_name(dotted, e)
    }
}

impl KeyModel {
    /// The layer that the key lives in.
    pub open spec fn layer(self) -> Layer {
        match self {
            KeyModel::Shared(_) => Layer::Shared,
            KeyModel::Private(_) => Layer::Private,
        }
    }

    /// The dotted form of the key.
    pub open spec fn dotted(self) -> Text {
        match self {
            KeyModel::Shared(SharedKeyModel::Url(r)) => r + ".url"@,
            KeyModel::Shared(SharedKeyModel::At(r)) => r + ".at"@,
            KeyModel::Shared(SharedKeyModel::Branchtype(r, b)) => r + ".branchtypes."@ + b,
            KeyModel::Shared(SharedKeyModel::Paths(r)) => r + ".paths"@,
            KeyModel::Shared(SharedKeyModel::Rule(n, f)) => n + "."@ + f.text(),
            KeyModel::Shared(SharedKeyModel::Hook(n, f)) => n + "."@ + f.text(),
            KeyModel::Private(PrivateKeyModel::Auth(r, f)) => r + "."@ + f.text(),
            KeyModel::Private(PrivateKeyModel::AtOverride(r)) => r + ".at"@,
            KeyModel::Private(PrivateKeyModel::BranchtypeOverride(r, b)) => r + ".branchtypes."@
                + b,
            KeyModel::Private(PrivateKeyModel::PathsOverride(r)) => r + ".paths"@,
        }
    }

    /// Whether the key is one that a dotted repo key can stand for, with
    /// valid names in it.
    pub open spec fn repo_shaped(self) -> bool {
        match self {
            KeyModel::Shared(SharedKeyModel::Url(r)) => valid_name(r),
            KeyModel::Shared(SharedKeyModel::At(r)) => valid_name(r),
            KeyModel::Shared(SharedKeyModel::Branchtype(r, b)) => valid_name(r) && valid_name(b),
            KeyModel::Shared(SharedKeyModel::Paths(r)) => valid_name(r),
            KeyModel::Shared(SharedKeyModel::Rule(_, _)) => false,
            KeyModel::Shared(SharedKeyModel::Hook(_, _)) => false,
            KeyModel::Private(PrivateKeyModel::Auth(r, _)) => valid_name(r),
            KeyModel::Private(PrivateKeyModel::AtOverride(r)) => valid_name(r),
            KeyModel::Private(PrivateKeyModel::BranchtypeOverride(r, b)) => valid_name(r)
                && valid_name(b),
            KeyModel::Private(PrivateKeyModel::PathsOverride(r)) => valid_name(r),
        }
    }
}

impl Key {
    /// Parses a **repo-shaped** dotted key, given the layer that is written
    /// to. Rules and hooks have their own parsers and never go through here.
    pub fn parse(dotted: &str, layer: Layer) -> (r: Result<Self, KeyError>)
        ensures
            outcome(r) == parsed_key(dotted@, layer),
    {
        let parts: Vec<String> = text::split(dotted, '.');
        let ghost p = text::split_on(dotted@, '.');
        assert(parts@.len() == p.len());
        if parts.len() == 2 {
            let repo: &str = parts[0].as_str();
            let field: &str = parts[1].as_str();
            assert(repo@ == p[0] && field@ == p[1]);
            if text::same(field, "url") {
                return match layer {
                    Layer::Shared => match RepoName::new(repo) {
                        Ok(n) => Ok(Key::Shared(SharedKey::Url(n))),
                        Err(e) => Err(e),
                    },
                    Layer::Private => Err(KeyError::WrongLayer(dotted.to_owned(), "private")),
                };
            }
            let auth: Option<AuthField> = if text::same(field, "key") {
                Some(AuthField::SshKeyPath)
            } else if text::same(field, "helper") {
                Some(AuthField::CredentialHelper)
            } else if text::same(field, "token") {
                Some(AuthField::TokenRef)
            } else {
                None
            };
            assert(auth == auth_field(p[1]));
            if let Some(f) = auth {
                return match layer {
                    Layer::Shared => Err(KeyError::WrongLayer(dotted.to_owned(), "shared")),
                    Layer::Private => match RepoName::new(repo) {
                        Ok(n) => Ok(Key::Private(PrivateKey::Auth(n, f))),
                        Err(e) => Err(e),
                    },
                };
            }
            if text::same(field, "at") {
                return match RepoName::new(repo) {
                    Ok(n) => Ok(
                        match layer {
                            Layer::Shared => Key::Shared(SharedKey::At(n)),
                            Layer::Private => Key::Private(PrivateKey::AtOverride(n)),
                        },
                    ),
                    Err(e) => Err(e),
                };
            }
            if text::same(field, "paths") {
                return match RepoName::new(repo) {
                    Ok(n) => Ok(
                        match layer {
                            Layer::Shared => Key::Shared(SharedKey::Paths(n)),
                            Layer::Private => Key::Private(PrivateKey::PathsOverride(n)),
                        },
                    ),
                    Err(e) => Err(e),
                };
            }
        } else if parts.len() == 3 {
            assert(parts[0]@ == p[0] && parts[1]@ == p[1] && parts[2]@ == p[2]);
            if text::same(parts[1].as_str(), "branchtypes") {
                let n: RepoName = match RepoName::new(parts[0].as_str()) {
                    Ok(n) => n,
                    Err(e) => return Err(e),
                };
                return match Branchtype::new(parts[2].as_str()) {
                    Ok(b) => Ok(
                        match layer {
                            Layer::Shared => Key::Shared(SharedKey::Branchtype(n, b)),
                            Layer::Private => Key::Private(PrivateKey::BranchtypeOverride(n, b)),
                        },
                    ),
                    Err(e) => Err(e),
                };
            }
        }
        Err(KeyError::Unknown(dotted.to_owned()))
    }

    /// The dotted form of the key.
    pub fn dotted(&self) -> (r: String)
        ensures
            r@ == self.deep_view().dotted(),
    {
        match self {
            Key::Shared(SharedKey::Url(r)) => text::cat(r.as_str(), ".url"),
            Key::Shared(SharedKey::At(r)) => text::cat(r.as_str(), ".at"),
            Key::Shared(SharedKey::Branchtype(r, b)) => text::cat(
                text::cat(r.as_str(), ".branchtypes.").as_str(),
                b.as_str(),
            ),
            Key::Shared(SharedKey::Paths(r)) => text::cat(r.as_str(), ".paths"),
            Key::Shared(SharedKey::Rule(n, f)) => text::cat(
                text::cat(n.as_str(), ".").as_str(),
                f.as_str(),
            ),
            Key::Shared(SharedKey::Hook(n, f)) => text::cat(
                text::cat(n.as_str(), ".").as_str(),
                f.as_str(),
            ),
            Key::Private(PrivateKey::Auth(r, f)) => text::cat(
                text::cat(r.as_str(), ".").as_str(),
                f.as_str(),
            ),
            Key::Private(PrivateKey::AtOverride(r)) => text::cat(r.as_str(), ".at"),
            Key::Private(PrivateKey::BranchtypeOverride(r, b)) => text::cat(
                text::cat(r.as_str(), ".branchtypes.").as_str(),
                b.as_str(),
            ),
            Key::Private(PrivateKey::PathsOverride(r)) => text::cat(r.as_str(), ".paths"),
        }
    }

    /// Parses a **rule-shaped** dotted key into the rule's name and field.
    pub fn parse_rule(dotted: &str) -> (r: Result<(RuleName, RuleField), KeyError>)
        ensures
            outcome(r) == parsed_rule(dotted@),
    {
        let parts: Vec<String> = text::split(dotted, '.');
        let ghost p = text::split_on(dotted@, '.');
        assert(parts@.len() == p.len());
        if parts.len() == 2 {
            let field: &str = parts[1].as_str();
            assert(parts[0]@ == p[0] && field@ == p[1]);
            let f: Option<RuleField> = if text::same(field, "pattern") {
                Some(RuleField::Pattern)
            } else if text::same(field, "predicate") {
                Some(RuleField::Predicate)
            } else if text::same(field, "message") {
                Some(RuleField::Message)
            } else {
                None
            };
            assert(f == rule_field(p[1]));
            if let Some(f) = f {
                return match RuleName::new(parts[0].as_str()) {
                    Ok(n) => Ok((n, f)),
                    Err(e) => Err(e),
                };
            }
        }
        Err(KeyError::Unknown(dotted.to_owned()))
    }

    /// Parses a **bare rule name** with no field, which stands for the whole
    /// rule.
    pub fn parse_rule_name(dotted: &str) -> (r: Result<RuleName, KeyError>)
        ensures
            outcome(r) == parsed_bare_name(dotted@, KeyErrorModel::InvalidRuleName(dotted@)),
    {
        if text::holds(dotted, '.') {
            return Err(KeyError::Unknown(dotted.to_owned()));
        }
        RuleName::new(dotted)
    }

    /// Parses a **hook-shaped** dotted key into the hook's name and field.
    pub fn parse_hook(dotted: &str) -> (r: Result<(HookName, HookField), KeyError>)
        ensures
            outcome(r) == parsed_hook(dotted@),
    {
        let parts: Vec<String> = text::split(dotted, '.');
        let ghost p = text::split_on(dotted@, '.');
        assert(parts@.len() == p.len());
        if parts.len() == 2 {
            let field: &str = parts[1].as_str();
            assert(parts[0]@ == p[0] && field@ == p[1]);
            let f: Option<HookField> = if text::same(field, "match") {
                Some(HookField::Match)
            } else if text::same(field, "exec") {
                Some(HookField::Exec)
            } else if text::same(field, "when") {
                Some(HookField::When)
            } else {
                None
            };
            assert(f == hook_field(p[1]));
            if let Some(f) = f {
                return match HookName::new(parts[0].as_str()) {
                    Ok(n) => Ok((n, f)),
                    Err(e) => Err(e),
                };
            }
        }
        Err(KeyError::Unknown(dotted.to_owned()))
    }

    /// Parses a **bare hook name** with no field, which stands for the whole
    /// hook.
    pub fn parse_hook_name(dotted: &str) -> (r: Result<HookName, KeyError>)
        ensures
            outcome(r) == parsed_bare_name(dotted@, KeyErrorModel::InvalidHookName(dotted@)),
    {
        if text::holds(dotted, '.') {
            return Err(KeyError::Unknown(dotted.to_owned()));
        }
        HookName::new(dotted)
    }

    /// The layer that the key lives in.
    pub fn layer(&self) -> (r: Layer)
        ensures
            r == self.deep_view().layer(),
    {
        match self {
            Key::Shared(_) => Layer::Shared,
            Key::Private(_) => Layer::Private,
        }
    }
}

// --- laws -------------------------------------------------------------------

/// The field names of the keyspace hold no `.` and differ from each other.
proof fn lemma_field_names()
    ensures
        forall|f: Text| #[trigger] is_field_name(f) ==> !f.contains('.'),
        "url"@ != "at"@ && "url"@ != "paths"@ && "url"@ != "key"@ && "url"@ != "helper"@ && "url"@
            != "token"@,
        "at"@ != "paths"@ && "at"@ != "key"@ && "at"@ != "helper"@ && "at"@ != "token"@,
        "paths"@ != "key"@ && "paths"@ != "helper"@ && "paths"@ != "token"@,
        "key"@ != "helper"@ && "key"@ != "token"@ && "helper"@ != "token"@,
        "pattern"@ != "predicate"@ && "pattern"@ != "message"@ && "predicate"@ != "message"@,
        "match"@ != "exec"@ && "match"@ != "when"@ && "exec"@ != "when"@,
        forall|f: Text| #[trigger]
            rule_field(f) is Some ==> hook_field(f) is None && auth_field(f) is None && f != "url"@
                && f != "at"@ && f != "paths"@,
        forall|f: Text| #[trigger]
            hook_field(f) is Some ==> rule_field(f) is None && auth_field(f) is None && f != "url"@
                && f != "at"@ && f != "paths"@,
        ".url"@ == seq!['.'] + "url"@,
        ".at"@ == seq!['.'] + "at"@,
        ".paths"@ == seq!['.'] + "paths"@,
        ".branchtypes."@ == seq!['.'] + "branchtypes"@ + seq!['.'],
        "."@ == seq!['.'],
{
    reveal_strlit("url");
    reveal_strlit("at");
    reveal_strlit("paths");
    reveal_strlit("branchtypes");
    reveal_strlit("key");
    reveal_strlit("helper");
    reveal_strlit("token");
    reveal_strlit("pattern");
    reveal_strlit("predicate");
    reveal_strlit("message");
    reveal_strlit("match");
    reveal_strlit("exec");
    reveal_strlit("when");
    reveal_strlit(".url");
    reveal_strlit(".at");
    reveal_strlit(".paths");
    reveal_strlit(".branchtypes.");
    reveal_strlit(".");
    assert(".url"@ =~= seq!['.'] + "url"@);
    assert(".at"@ =~= seq!['.'] + "at"@);
    assert(".paths"@ =~= seq!['.'] + "paths"@);
    assert(".branchtypes."@ =~= seq!['.'] + "branchtypes"@ + seq!['.']);
    assert("."@ =~= seq!['.']);
    assert("url"@[0] == 'u' && "at"@[0] == 'a' && "paths"@[0] == 'p' && "key"@[0] == 'k'
        && "helper"@[0] == 'h' && "token"@[0] == 't' && "pattern"@[2] == 't' && "paths"@[2] == 't'
        && "predicate"@[0] == 'p' && "message"@[1] == 'e' && "match"@[1] == 'a' && "exec"@[0] == 'e'
        && "when"@[0] == 'w' && "message"@[0] == 'm' && "pattern"@[0] == 'p');
    assert("pattern"@.len() == 7 && "predicate"@.len() == 9 && "message"@.len() == 7);
    assert("match"@.len() == 5 && "exec"@.len() == 4 && "when"@.len() == 4 && "key"@.len() == 3);
    assert("url"@.len() == 3 && "paths"@.len() == 5 && "token"@.len() == 5 && "helper"@.len() == 6);
}

/// A text that stands as a field in some dotted key.
pub open spec fn is_field_name(f: Text) -> bool {
    ||| f == "url"@
    ||| f == "at"@
    ||| f == "paths"@
    ||| f == "branchtypes"@
    ||| auth_field(f) is Some
    ||| rule_field(f) is Some
    ||| hook_field(f) is Some
}

proof fn lemma_two_parts(a: Text, b: Text)
    requires
        !a.contains('.'),
        !b.contains('.'),
    ensures
        text::split_on(a + seq!['.'] + b, '.') == seq![a, b],
{
    let parts = seq![a, b];
    text::lemma_joined_split(parts, '.');
    reveal_with_fuel(text::joined, 2);
    assert(parts.drop_last() =~= seq![a]);
    assert(text::joined(parts, seq!['.']) =~= a + seq!['.'] + b);
}

proof fn lemma_three_parts(a: Text, b: Text, c: Text)
    requires
        !a.contains('.'),
        !b.contains('.'),
        !c.contains('.'),
    ensures
        text::split_on(a + seq!['.'] + b + seq!['.'] + c, '.') == seq![a, b, c],
{
    let parts = seq![a, b, c];
    text::lemma_joined_split(parts, '.');
    reveal_with_fuel(text::joined, 3);
    assert(parts.drop_last() =~= seq![a, b]);
    assert(parts.drop_last().drop_last() =~= seq![a]);
    assert(text::joined(parts, seq!['.']) =~= a + seq!['.'] + b + seq!['.'] + c);
}

/// How a text with one or two dots is put together from its parts.
proof fn lemma_parts(dotted: Text)
    ensures
        ({
            let p = text::split_on(dotted, '.');
            &&& p.len() == 2 ==> dotted == p[0] + seq!['.'] + p[1]
            &&& p.len() == 3 ==> dotted == p[0] + seq!['.'] + p[1] + seq!['.'] + p[2]
            &&& p.len() == 1 ==> dotted == p[0]
            &&& p.len() >= 1
            &&& forall|i: int| 0 <= i < p.len() ==> !(#[trigger] p[i]).contains('.')
        }),
{
    let p = text::split_on(dotted, '.');
    text::lemma_split_joined(dotted, '.');
    reveal_with_fuel(text::joined, 3);
    if p.len() == 2 {
        assert(p.drop_last() =~= seq![p[0]]);
    } else if p.len() == 3 {
        assert(p.drop_last() =~= seq![p[0], p[1]]);
        assert(p.drop_last().drop_last() =~= seq![p[0]]);
    }
}

/// A valid name holds no dot.
pub proof fn lemma_valid_name_plain(s: Text)
    requires
        valid_name(s),
    ensures
        !s.contains('.'),
{
    if s.contains('.') {
        let k = choose|k: int| 0 <= k < s.len() && s[k] == '.';
        assert(name_char(s[k]));
    }
}

/// What a dotted key parses to writes back as the same dotted key, lives in
/// the layer that was asked for, and holds valid names only.
pub proof fn law_parse_then_dotted(dotted: Text, layer: Layer)
    requires
        parsed_key(dotted, layer) is Ok,
    ensures
        parsed_key(dotted, layer)->Ok_0.dotted() == dotted,
        parsed_key(dotted, layer)->Ok_0.layer() == layer,
        parsed_key(dotted, layer)->Ok_0.repo_shaped(),
{
    lemma_field_names();
    lemma_parts(dotted);
    let k = parsed_key(dotted, layer)->Ok_0;
    assert(k.dotted() =~= dotted);
}

proof fn lemma_field_splits(r: Text, f: Text)
    requires
        valid_name(r),
        is_field_name(f),
    ensures
        text::split_on(r + seq!['.'] + f, '.') == seq![r, f],
        r + (seq!['.'] + f) == r + seq!['.'] + f,
{
    lemma_field_names();
    lemma_valid_name_plain(r);
    lemma_two_parts(r, f);
    assert(r + (seq!['.'] + f) =~= r + seq!['.'] + f);
}

proof fn lemma_branchtype_splits(r: Text, b: Text)
    requires
        valid_name(r),
        valid_name(b),
    ensures
        text::split_on(r + ".branchtypes."@ + b, '.') == seq![r, "branchtypes"@, b],
{
    lemma_field_names();
    lemma_valid_name_plain(r);
    lemma_valid_name_plain(b);
    assert(is_field_name("branchtypes"@));
    lemma_three_parts(r, "branchtypes"@, b);
    assert(r + ".branchtypes."@ + b =~= r + seq!['.'] + "branchtypes"@ + seq!['.'] + b);
}

/// The dotted form of every repo-shaped key parses, in the key's own layer,
/// to that key.
pub proof fn law_dotted_then_parse(k: KeyModel)
    requires
        k.repo_shaped(),
    ensures
        parsed_key(k.dotted(), k.layer()) == Ok::<KeyModel, KeyErrorModel>(k),
{
    match k {
        KeyModel::Shared(SharedKeyModel::Url(r)) => {
            lemma_field_splits(r, "url"@);
            lemma_field_names();
        },
        KeyModel::Shared(SharedKeyModel::At(r)) => {
            lemma_field_splits(r, "at"@);
            lemma_field_names();
        },
        KeyModel::Private(PrivateKeyModel::AtOverride(r)) => {
            lemma_field_splits(r, "at"@);
            lemma_field_names();
        },
        KeyModel::Shared(SharedKeyModel::Paths(r)) => {
            lemma_field_splits(r, "paths"@);
            lemma_field_names();
        },
        KeyModel::Private(PrivateKeyModel::PathsOverride(r)) => {
            lemma_field_splits(r, "paths"@);
            lemma_field_names();
        },
        KeyModel::Shared(SharedKeyModel::Branchtype(r, b)) => {
            lemma_branchtype_splits(r, b);
        },
        KeyModel::Private(PrivateKeyModel::BranchtypeOverride(r, b)) => {
            lemma_branchtype_splits(r, b);
        },
        KeyModel::Private(PrivateKeyModel::Auth(r, f)) => {
            lemma_field_names();
            assert(auth_field(f.text()) == Some(f));
            lemma_field_splits(r, f.text());
        },
        _ => {},
    }
}

/// Auth is never accepted for the shared layer, whatever the repo.
pub proof fn law_auth_refused_in_shared(repo: Text, f: AuthField)
    requires
        !repo.contains('.'),
    ensures
        parsed_key(repo + "."@ + f.text(), Layer::Shared) == Err::<KeyModel, KeyErrorModel>(
            KeyErrorModel::WrongLayer(repo + "."@ + f.text(), "shared"@),
        ),
{
    lemma_field_names();
    assert(auth_field(f.text()) == Some(f));
    assert(is_field_name(f.text()));
    lemma_two_parts(repo, f.text());
}

/// A URL is never accepted for the private layer, whatever the repo.
pub proof fn law_url_refused_in_private(repo: Text)
    requires
        !repo.contains('.'),
    ensures
        parsed_key(repo + ".url"@, Layer::Private) == Err::<KeyModel, KeyErrorModel>(
            KeyErrorModel::WrongLayer(repo + ".url"@, "private"@),
        ),
{
    lemma_field_names();
    assert(is_field_name("url"@));
    lemma_two_parts(repo, "url"@);
    assert(repo + ".url"@ =~= repo + seq!['.'] + "url"@);
}

/// The rule key that a name and a field make parses back to them, and what a
/// rule key parses to writes back as the same key.
pub proof fn law_rule_round_trip(dotted: Text, name: Text, f: RuleField)
    ensures
        valid_name(name) ==> parsed_rule(
            KeyModel::Shared(SharedKeyModel::Rule(name, f)).dotted(),
        ) == Ok::<(Text, RuleField), KeyErrorModel>((name, f)),
        parsed_rule(dotted) is Ok ==> valid_name(parsed_rule(dotted)->Ok_0.0) && KeyModel::Shared(
            SharedKeyModel::Rule(parsed_rule(dotted)->Ok_0.0, parsed_rule(dotted)->Ok_0.1),
        ).dotted() == dotted,
{
    lemma_field_names();
    lemma_parts(dotted);
    if valid_name(name) {
        lemma_valid_name_plain(name);
        assert(rule_field(f.text()) == Some(f));
        assert(is_field_name(f.text()));
        lemma_two_parts(name, f.text());
    }
}

/// The hook key that a name and a field make parses back to them, and what a
/// hook key parses to writes back as the same key.
pub proof fn law_hook_round_trip(dotted: Text, name: Text, f: HookField)
    ensures
        valid_name(name) ==> parsed_hook(
            KeyModel::Shared(SharedKeyModel::Hook(name, f)).dotted(),
        ) == Ok::<(Text, HookField), KeyErrorModel>((name, f)),
        parsed_hook(dotted) is Ok ==> valid_name(parsed_hook(dotted)->Ok_0.0) && KeyModel::Shared(
            SharedKeyModel::Hook(parsed_hook(dotted)->Ok_0.0, parsed_hook(dotted)->Ok_0.1),
        ).dotted() == dotted,
{
    lemma_field_names();
    lemma_parts(dotted);
    if valid_name(name) {
        lemma_valid_name_plain(name);
        assert(hook_field(f.text()) == Some(f));
        assert(is_field_name(f.text()));
        lemma_two_parts(name, f.text());
    }
}

/// The keyspaces of repos, rules and hooks never overlap: no dotted key is
/// accepted by two of the three parsers, in any layer. A bare name is none of
/// their keys either.
pub proof fn law_keyspaces_disjoint(dotted: Text, layer: Layer)
    ensures
        parsed_rule(dotted) is Ok ==> parsed_key(dotted, layer) is Err && parsed_hook(
            dotted,
        ) is Err,
        parsed_hook(dotted) is Ok ==> parsed_key(dotted, layer) is Err,
        !dotted.contains('.') ==> parsed_key(dotted, layer) is Err && parsed_rule(dotted) is Err
            && parsed_hook(dotted) is Err,
{
    lemma_field_names();
    lemma_parts(dotted);
    let p = text::split_on(dotted, '.');
    if p.len() == 2 || p.len() == 3 {
        assert(dotted[p[0].len() as int] == '.');
    }
}

} // verus!
