//! The CLI surface: the six verbs and their arguments, as plain types.

use crate::text::{self, outcome, Class, Text};
use vstd::prelude::*;

verus! {

/// A whole invocation.
#[derive(Debug)]
pub struct Cli {
    /// The verb and its arguments.
    pub verb: Verb,
}

/// The verbs.
#[derive(Debug)]
pub enum Verb {
    /// Register, unregister or list repos.
    Portal { op: PortalOp },
    /// Reconcile on-disk state to match env intent.
    Summon(SummonArgs),
    /// Resolve a branchtype or tag and move each repo to it.
    Sync(SyncArgs),
    /// Run a shell command across a selected set of repos.
    Cascade(CascadeArgs),
    /// The only config surface.
    Env(EnvArgs),
    /// Copy files from a local source into a registered portal.
    Resonate(ResonateArgs),
}

/// What `portal` does.
#[derive(Debug)]
pub enum PortalOp {
    /// Add a repo to the manifest and clone its metainfo.
    Add { url: String, at: Option<String>, alias: Vec<(String, String)> },
    /// Remove a repo from the manifest. Leaves the working tree in place.
    Remove { repo: String },
    /// List registered repos.
    List,
}

/// Arguments of `summon`.
#[derive(Debug)]
pub struct SummonArgs {
    /// Narrow to these repos. Empty means everything.
    pub repos: Vec<String>,
    /// Sparse paths. Requires exactly one repo.
    pub paths: Vec<String>,
}

/// Arguments of `sync`.
#[derive(Debug)]
pub struct SyncArgs {
    /// Branchtype, branch, or tag. `refs/heads/` and `refs/tags/` prefixes
    /// disambiguate.
    pub ref_name: String,
}

/// Arguments of `cascade`.
#[derive(Debug)]
pub struct CascadeArgs {
    /// The shell command to run inside each selected repo, in words.
    pub command: Vec<String>,
    /// Only repos with a dirty tree or unpushed commits.
    pub changed_only: bool,
    /// Only repos currently on a branch matching this glob.
    pub branch_pattern: Option<String>,
}

/// Arguments of `resonate`.
#[derive(Debug)]
pub struct ResonateArgs {
    /// Name of a registered portal.
    pub portal: String,
    /// Local file or directory to copy from, as it is shown to the user.
    pub source: String,
    /// Subpath inside the portal placement.
    pub at: Option<String>,
    /// Overwrite existing files at the destination.
    pub force: bool,
}

/// Arguments of `env`.
#[derive(Debug)]
pub struct EnvArgs {
    /// What to do; none means to show.
    pub op: Option<EnvOp>,
    /// Show the raw shared layer.
    pub shared: bool,
    /// Show the raw private layer.
    pub private: bool,
}

/// What `env` does.
#[derive(Debug)]
pub enum EnvOp {
    /// Set a key.
    Assign { assignment: String, private: bool },
    /// Unset a key.
    Unset { key: String, private: bool },
    /// Get a single key's merged value.
    Get { key: String },
    /// Workspace rules: gates on `cascade` commands.
    Rules { op: RulesOp },
    /// Workspace hooks: commands that run around verbs.
    Hooks { op: HooksOp },
}

/// What `env rules` does.
#[derive(Debug)]
pub enum RulesOp {
    /// Set a rule field.
    Assign { assignment: String },
    /// Unset a rule field, or a whole rule by bare name.
    Unset { key: String },
    /// Get a rule field, or all fields of a rule by bare name.
    Get { key: String },
    /// List all configured rules.
    List,
}

/// What `env hooks` does.
#[derive(Debug)]
pub enum HooksOp {
    /// Set a hook field.
    Assign { assignment: String },
    /// Unset a hook field, or a whole hook by bare name.
    Unset { key: String },
    /// Get a hook field, or all fields of a hook by bare name.
    Get { key: String },
    /// List all configured hooks.
    List,
}

/// What is said of a text that is not an assignment.
pub open spec fn not_assignment(s: Text) -> Text {
    "expected key=value, got "@ + text::debug_text(s)
}

/// The two sides of an alias argument, trimmed.
pub open spec fn parsed_alias(s: Text) -> Result<(Text, Text), Text> {
    match text::split_first(s, '=') {
        Some((k, v)) => Ok((text::trimmed(k, Class::White), text::trimmed(v, Class::White))),
        None => Err(not_assignment(s)),
    }
}

/// Parses a branchtype alias such as `dev=develop`.
pub fn parse_alias(s: &str) -> (r: Result<(String, String), String>)
    ensures
        outcome(r) == parsed_alias(s@),
{
    match text::split_once(s, '=') {
        Some((k, v)) => Ok(
            (text::trim(k.as_str(), Class::White), text::trim(v.as_str(), Class::White)),
        ),
        None => Err(text::cat("expected key=value, got ", text::quoted(s).as_str())),
    }
}

} // verus!
