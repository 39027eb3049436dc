//! What the env storage is for.

use crate::key::{AuthField, HookField, PrivateKeyModel, RuleField, SharedKeyModel};
use crate::store::{
    change_doc, change_hook, change_private, change_repo, change_rule, discovered, first_of,
    joined_path, loaded, nonblank, outdated, parsed_paths, EnvPathsModel, PrivateRepoModel, SharedDocModel,
    SharedFile, SharedHookModel, SharedRepoModel, SharedRuleModel,
};
use crate::text::{split_on, trimmed, Class, Text};
use vstd::prelude::*;

verus! {

/// **A path is taken relative to its base**: an absolute one stands for itself,
/// and between base and path there is one slash.
pub proof fn law_joined_path(base: Text, rel: Text)
    ensures
        rel.len() > 0 && rel[0] == '/' ==> joined_path(base, rel) == rel,
        !(rel.len() > 0 && rel[0] == '/') ==> {
            &&& base.len() == 0 ==> joined_path(base, rel) == rel
            &&& base.len() > 0 && base.last() == '/' ==> joined_path(base, rel) == base + rel
            &&& base.len() > 0 && base.last() != '/' ==> joined_path(base, rel) == base + seq!['/']
                + rel
        },
{
    reveal_strlit("/");
    assert("/"@ =~= seq!['/']);
}

/// **Where the env lives**: an explicit root wins over the current directory,
/// and an explicit private directory over `.xen` in the home directory; the
/// shared layer is `.xen` in the root.
pub proof fn law_discovery(
    root: Option<Text>,
    cwd: Option<Text>,
    private_dir: Option<Text>,
    home: Option<Text>,
)
    ensures
        root is None && cwd is None ==> discovered(root, cwd, private_dir, home) == Err::<
            EnvPathsModel,
            Text,
        >("cwd"@),
        (root is Some || cwd is Some) && private_dir is None && home is None ==> discovered(
            root,
            cwd,
            private_dir,
            home,
        ) == Err::<EnvPathsModel, Text>("HOME not set"@),
        (root is Some || cwd is Some) && (private_dir is Some || home is Some) ==> (discovered(
            root,
            cwd,
            private_dir,
            home,
        ) matches Ok(p) && {
            &&& root is Some ==> p.shared_root == root->0
            &&& root is None ==> p.shared_root == cwd->0
            &&& p.shared_dir == joined_path(p.shared_root, ".xen"@)
            &&& private_dir is Some ==> p.private_dir == private_dir->0
            &&& private_dir is None ==> p.private_dir == joined_path(home->0, ".xen"@)
        }),
{
}

/// **The first of two values is the one that counts**, where it is there.
pub proof fn law_first_of<T>(a: T, b: Option<T>)
    ensures
        first_of(Some(a), b) == Some(a),
        first_of(None::<T>, b) == b,
{
}

/// **Every path of a list is read**: the parts between the commas, without the
/// white space around them, but for those of which nothing is left.
pub proof fn law_parsed_paths(s: Text)
    ensures
        parsed_paths(s) == split_on(s, ',').map_values(
            |p: Text| trimmed(p, Class::White),
        ).filter(|p: Text| p.len() > 0),
{
    lemma_nonblank_filters(split_on(s, ','));
}

proof fn lemma_nonblank_filters(parts: Seq<Text>)
    ensures
        nonblank(parts) == parts.map_values(|p: Text| trimmed(p, Class::White)).filter(
            |p: Text| p.len() > 0,
        ),
    decreases parts.len(),
{
    reveal(Seq::filter);
    let g = |p: Text| trimmed(p, Class::White);
    if parts.len() > 0 {
        lemma_nonblank_filters(parts.drop_last());
        assert(parts.map_values(g).drop_last() =~= parts.drop_last().map_values(g));
    }
}

/// A repo of which nothing is recorded.
pub open spec fn blank_repo() -> SharedRepoModel {
    SharedRepoModel {
        url: None,
        at: None,
        paths: Seq::empty(),
        branchtypes: Map::empty(),
    }
}

/// A repo of which nothing is recorded in the private layer.
pub open spec fn blank_private() -> PrivateRepoModel {
    PrivateRepoModel {
        key: None,
        helper: None,
        token: None,
        at: None,
        paths: Seq::empty(),
        branchtypes: Map::empty(),
    }
}

/// What is recorded under a name, or `blank`.
pub open spec fn recorded_or<V>(m: Map<Text, V>, n: Text, blank: V) -> V {
    if m.contains_key(n) {
        m[n]
    } else {
        blank
    }
}

/// A map with an entry, or without it where the entry is blank.
pub open spec fn kept_unless_blank<V>(m: Map<Text, V>, n: Text, e: V, blank: V) -> Map<Text, V> {
    if e == blank {
        m.remove(n)
    } else {
        m.insert(n, e)
    }
}

/// **A key of the manifest changes its own field and nothing else**: the field
/// of that repo takes the value, or loses it where there is none; every other
/// field and every other repo stays. A repo of which nothing is left goes.
pub proof fn law_change_repo(m: Map<Text, SharedRepoModel>, n: Text, b: Text, v: Option<Text>)
    ensures
        ({
            let e = recorded_or(m, n, blank_repo());
            &&& change_repo(m, SharedKeyModel::Url(n), v) == kept_unless_blank(
                m,
                n,
                SharedRepoModel { url: v, ..e },
                blank_repo(),
            )
            &&& change_repo(m, SharedKeyModel::At(n), v) == kept_unless_blank(
                m,
                n,
                SharedRepoModel { at: v, ..e },
                blank_repo(),
            )
            &&& change_repo(m, SharedKeyModel::Paths(n), v) == kept_unless_blank(
                m,
                n,
                SharedRepoModel {
                    paths: match v {
                        Some(t) => parsed_paths(t),
                        None => Seq::empty(),
                    },
                    ..e
                },
                blank_repo(),
            )
            &&& change_repo(m, SharedKeyModel::Branchtype(n, b), v) == kept_unless_blank(
                m,
                n,
                SharedRepoModel {
                    branchtypes: match v {
                        Some(t) => e.branchtypes.insert(b, t),
                        None => e.branchtypes.remove(b),
                    },
                    ..e
                },
                blank_repo(),
            )
        }),
{
    assert forall|e: SharedRepoModel| #[trigger] e.is_empty() <==> e == blank_repo() by {
        if e.is_empty() {
            assert(e.paths =~= Seq::empty());
        }
    }
    assert(SharedRepoModel::empty() =~= blank_repo());
}

/// **A key of the private layer changes its own field and nothing else.**
pub proof fn law_change_private(m: Map<Text, PrivateRepoModel>, n: Text, b: Text, v: Option<Text>)
    ensures
        ({
            let e = recorded_or(m, n, blank_private());
            &&& change_private(
                m,
                PrivateKeyModel::Auth(n, AuthField::SshKeyPath),
                v,
            ) == kept_unless_blank(m, n, PrivateRepoModel { key: v, ..e }, blank_private())
            &&& change_private(
                m,
                PrivateKeyModel::Auth(n, AuthField::CredentialHelper),
                v,
            ) == kept_unless_blank(m, n, PrivateRepoModel { helper: v, ..e }, blank_private())
            &&& change_private(
                m,
                PrivateKeyModel::Auth(n, AuthField::TokenRef),
                v,
            ) == kept_unless_blank(m, n, PrivateRepoModel { token: v, ..e }, blank_private())
            &&& change_private(m, PrivateKeyModel::AtOverride(n), v) == kept_unless_blank(
                m,
                n,
                PrivateRepoModel { at: v, ..e },
                blank_private(),
            )
            &&& change_private(m, PrivateKeyModel::PathsOverride(n), v) == kept_unless_blank(
                m,
                n,
                PrivateRepoModel {
                    paths: match v {
                        Some(t) => parsed_paths(t),
                        None => Seq::empty(),
                    },
                    ..e
                },
                blank_private(),
            )
            &&& change_private(m, PrivateKeyModel::BranchtypeOverride(n, b), v)
                == kept_unless_blank(
                m,
                n,
                PrivateRepoModel {
                    branchtypes: match v {
                        Some(t) => e.branchtypes.insert(b, t),
                        None => e.branchtypes.remove(b),
                    },
                    ..e
                },
                blank_private(),
            )
        }),
{
    assert forall|e: PrivateRepoModel| #[trigger] e.is_empty() <==> e == blank_private() by {
        if e.is_empty() {
            assert(e.paths =~= Seq::empty());
        }
    }
    assert(PrivateRepoModel::empty() =~= blank_private());
}

/// **A key of a rule changes its own field and nothing else.**
pub proof fn law_change_rule(m: Map<Text, SharedRuleModel>, n: Text, v: Option<Text>)
    ensures
        ({
            let blank = SharedRuleModel { pattern: None, predicate: None, message: None };
            let e = recorded_or(m, n, blank);
            &&& change_rule(m, n, RuleField::Pattern, v) == kept_unless_blank(
                m,
                n,
                SharedRuleModel { pattern: v, ..e },
                blank,
            )
            &&& change_rule(m, n, RuleField::Predicate, v) == kept_unless_blank(
                m,
                n,
                SharedRuleModel { predicate: v, ..e },
                blank,
            )
            &&& change_rule(m, n, RuleField::Message, v) == kept_unless_blank(
                m,
                n,
                SharedRuleModel { message: v, ..e },
                blank,
            )
        }),
{
}

/// **A key of a hook changes its own field and nothing else.**
pub proof fn law_change_hook(m: Map<Text, SharedHookModel>, n: Text, v: Option<Text>)
    ensures
        ({
            let blank = SharedHookModel { match_pattern: None, exec_command: None, when: None };
            let e = recorded_or(m, n, blank);
            &&& change_hook(m, n, HookField::Match, v) == kept_unless_blank(
                m,
                n,
                SharedHookModel { match_pattern: v, ..e },
                blank,
            )
            &&& change_hook(m, n, HookField::Exec, v) == kept_unless_blank(
                m,
                n,
                SharedHookModel { exec_command: v, ..e },
                blank,
            )
            &&& change_hook(m, n, HookField::When, v) == kept_unless_blank(
                m,
                n,
                SharedHookModel { when: v, ..e },
                blank,
            )
        }),
{
}

/// **A shared key reaches the one file that holds it**: rules and hooks have
/// their own, and everything of a repo is in the manifest.
pub proof fn law_files(
    repos: Map<Text, SharedRepoModel>,
    rules: Map<Text, SharedRuleModel>,
    hooks: Map<Text, SharedHookModel>,
    n: Text,
    b: Text,
    key: SharedKeyModel,
    rf: RuleField,
    hf: HookField,
    v: Option<Text>,
)
    ensures
        SharedKeyModel::Url(n).file() == SharedFile::Repos,
        SharedKeyModel::At(n).file() == SharedFile::Repos,
        SharedKeyModel::Paths(n).file() == SharedFile::Repos,
        SharedKeyModel::Branchtype(n, b).file() == SharedFile::Repos,
        SharedKeyModel::Rule(n, rf).file() == SharedFile::Rules,
        SharedKeyModel::Hook(n, hf).file() == SharedFile::Hooks,
        SharedDocModel::Repos(repos).file() == SharedFile::Repos,
        SharedDocModel::Rules(rules).file() == SharedFile::Rules,
        SharedDocModel::Hooks(hooks).file() == SharedFile::Hooks,
        change_doc(SharedDocModel::Rules(rules), SharedKeyModel::Rule(n, rf), v)
            == SharedDocModel::Rules(change_rule(rules, n, rf, v)),
        change_doc(SharedDocModel::Hooks(hooks), SharedKeyModel::Hook(n, hf), v)
            == SharedDocModel::Hooks(change_hook(hooks, n, hf, v)),
        key.file() == SharedFile::Repos ==> change_doc(SharedDocModel::Repos(repos), key, v)
            == SharedDocModel::Repos(change_repo(repos, key, v)),
{
}

/// **A rule and a hook are complete where both fields that they need are set**;
/// a record is empty where no field is.
pub proof fn law_complete(r: SharedRuleModel, h: SharedHookModel)
    ensures
        r.is_complete() <==> r.pattern is Some && r.predicate is Some,
        h.is_complete() <==> h.match_pattern is Some && h.exec_command is Some,
        r.is_empty() <==> r.pattern is None && r.predicate is None && r.message is None,
        h.is_empty() <==> h.match_pattern is None && h.exec_command is None && h.when is None,
{
}

/// **Where each file is.**
pub proof fn law_file_names(p: EnvPathsModel, legacy_exists: bool)
    ensures
        p.repos_file() == joined_path(p.shared_dir, "repos.toml"@),
        p.rules_file() == joined_path(p.shared_dir, "rules.toml"@),
        p.hooks_file() == joined_path(p.shared_dir, "hooks.toml"@),
        p.private_file() == joined_path(p.private_dir, "config.toml"@),
        p.legacy_shared_file() == joined_path(p.shared_dir, "config.toml"@),
        outdated(p, true) == Some(joined_path(p.shared_dir, "config.toml"@)),
        outdated(p, false) is None,
{
}

/// **A file that is there is taken as it was read; one that is not holds
/// nothing.**
pub proof fn law_loaded<V>(m: Map<Text, V>)
    ensures
        loaded(Some(m)) == m,
        loaded(None::<Map<Text, V>>) == Map::<Text, V>::empty(),
{
}

} // verus!
