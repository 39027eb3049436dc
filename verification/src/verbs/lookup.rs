//! Reading one merged value by its dotted key.

use crate::key::{
    self, law_dotted_then_parse, KeyModel, PrivateKeyModel, SharedKeyModel,
};
use crate::store::{
    change_private, change_private_field, change_repo, change_repo_field, entry_or, parsed_paths,
    PrivateRepoModel, SharedRepoModel,
};
use crate::text::{self, Text};
use crate::textmap::{keys_of, TextMap};
use crate::verbs::merged::{merged, merged_entry, placed, Merged, MergedRepo, MergedRepoModel};
use vstd::prelude::*;

verus! {

/// One line `key=value` for each of the keys.
pub open spec fn mapping_lines(m: Map<Text, Text>, ks: Seq<Text>) -> Seq<Text> {
    ks.map_values(|k: Text| k + "="@ + m[k])
}

/// What a repo answers to the part of a dotted key behind its name.
pub open spec fn repo_answer(r: MergedRepoModel, p: Seq<Text>) -> Option<Text> {
    if p.len() == 2 && p[1] == "url"@ {
        r.url
    } else if p.len() == 2 && p[1] == "at"@ {
        Some(placed(r, p[0]))
    } else if p.len() == 2 && p[1] == "paths"@ {
        if r.paths.len() > 0 {
            Some(text::joined(r.paths, ","@))
        } else {
            None
        }
    } else if p.len() == 2 && p[1] == "branchtypes"@ {
        if r.branchtypes == Map::<Text, Text>::empty() {
            None
        } else {
            Some(text::joined(mapping_lines(r.branchtypes, keys_of(r.branchtypes)), "\n"@))
        }
    } else if p.len() == 3 && p[1] == "branchtypes"@ {
        r.branchtypes.get(p[2])
    } else {
        None
    }
}

/// The merged value under a dotted key.
pub open spec fn looked_up(m: Map<Text, MergedRepoModel>, dotted: Text) -> Option<Text> {
    let p = text::split_on(dotted, '.');
    if m.contains_key(p[0]) {
        repo_answer(m[p[0]], p)
    } else {
        None
    }
}

fn mapping_text(m: &TextMap<String>) -> (r: String)
    ensures
        r@ == text::joined(mapping_lines(m.deep_view(), keys_of(m.deep_view())), "\n"@),
{
    let mut lines: Vec<String> = Vec::new();
    let n: usize = m.len();
    let ghost all = mapping_lines(m.deep_view(), keys_of(m.deep_view()));
    for i in 0..n
        invariant
            n == keys_of(m.deep_view()).len(),
            all == mapping_lines(m.deep_view(), keys_of(m.deep_view())),
            lines@.len() == i,
            forall|j: int| 0 <= j < i ==> (#[trigger] lines@[j])@ == all[j],
    {
        let line: String = text::cat(
            text::cat(m.key_at(i), "=").as_str(),
            m.value_at(i).as_str(),
        );
        assert(line@ == all[i as int]);
        lines.push(line);
    }
    assert(lines.deep_view() =~= all);
    text::join(&lines, "\n")
}

/// Looks up one merged value by its dotted key.
pub fn lookup(m: &Merged, dotted: &str) -> (r: Option<String>)
    ensures
        r.deep_view() == looked_up(m.deep_view(), dotted@),
{
    let parts: Vec<String> = text::split(dotted, '.');
    let ghost p = text::split_on(dotted@, '.');
    proof {
        text::lemma_split_joined(dotted@, '.');
        assert(parts@.len() == p.len());
        assert(parts@[0]@ == p[0]);
    }
    let repo: &MergedRepo = match m.repos.get(parts[0].as_str()) {
        Some(r) => r,
        None => return None,
    };
    if parts.len() == 2 {
        let field: &str = parts[1].as_str();
        assert(field@ == p[1]);
        if text::same(field, "url") {
            return match &repo.url {
                Some(u) => Some(u.clone()),
                None => None,
            };
        }
        if text::same(field, "at") {
            return Some(repo.placement(parts[0].as_str()));
        }
        if text::same(field, "paths") {
            return if repo.paths.len() > 0 {
                Some(text::join(&repo.paths, ","))
            } else {
                None
            };
        }
        if text::same(field, "branchtypes") {
            return if repo.branchtypes.is_empty() {
                None
            } else {
                Some(mapping_text(&repo.branchtypes))
            };
        }
    } else if parts.len() == 3 {
        assert(parts@[1]@ == p[1] && parts@[2]@ == p[2]);
        if text::same(parts[1].as_str(), "branchtypes") {
            return match repo.branchtypes.get(parts[2].as_str()) {
                Some(b) => Some(b.clone()),
                None => None,
            };
        }
    }
    None
}

// --- laws -------------------------------------------------------------------

/// Whether the private layer overrides what a shared key records.
pub open spec fn overridden(p: Map<Text, PrivateRepoModel>, key: SharedKeyModel) -> bool {
    let name = key.repo()->0;
    p.contains_key(name) && match key {
        SharedKeyModel::At(_) => p[name].at is Some,
        SharedKeyModel::Paths(_) => p[name].paths.len() > 0,
        SharedKeyModel::Branchtype(_, b) => p[name].branchtypes.contains_key(b),
        _ => false,
    }
}

/// How a value that was written under a key reads: a path list in its
/// canonical form, anything else as it was written.
pub open spec fn reads_as(is_paths: bool, v: Text) -> Option<Text> {
    if is_paths {
        if parsed_paths(v).len() > 0 {
            Some(text::joined(parsed_paths(v), ","@))
        } else {
            None
        }
    } else {
        Some(v)
    }
}

/// What the parts of a repo-shaped key are.
proof fn lemma_key_parts(k: KeyModel)
    requires
        k.repo_shaped(),
    ensures
        ({
            let p = text::split_on(k.dotted(), '.');
            match k {
                KeyModel::Shared(SharedKeyModel::Url(r)) => p == seq![r, "url"@],
                KeyModel::Shared(SharedKeyModel::At(r)) => p == seq![r, "at"@],
                KeyModel::Shared(SharedKeyModel::Paths(r)) => p == seq![r, "paths"@],
                KeyModel::Shared(SharedKeyModel::Branchtype(r, b)) => p == seq![
                    r,
                    "branchtypes"@,
                    b,
                ],
                KeyModel::Private(PrivateKeyModel::Auth(r, f)) => p == seq![r, f.text()],
                KeyModel::Private(PrivateKeyModel::AtOverride(r)) => p == seq![r, "at"@],
                KeyModel::Private(PrivateKeyModel::PathsOverride(r)) => p == seq![r, "paths"@],
                KeyModel::Private(PrivateKeyModel::BranchtypeOverride(r, b)) => p == seq![
                    r,
                    "branchtypes"@,
                    b,
                ],
                _ => true,
            }
        }),
{
    law_dotted_then_parse(k);
    let p = text::split_on(k.dotted(), '.');
    if p.len() == 2 {
        assert(p =~= seq![p[0], p[1]]);
    } else if p.len() == 3 {
        assert(p =~= seq![p[0], p[1], p[2]]);
    }
}

/// `env get` gives back what `env set` wrote to the shared layer, unless the
/// private layer overrides it.
pub proof fn law_get_after_shared_set(
    s: Map<Text, SharedRepoModel>,
    p: Map<Text, PrivateRepoModel>,
    home: Option<Text>,
    key: SharedKeyModel,
    v: Text,
)
    requires
        KeyModel::Shared(key).repo_shaped(),
        !overridden(p, key),
    ensures
        looked_up(
            merged(change_repo(s, key, Some(v)), p, home),
            KeyModel::Shared(key).dotted(),
        ) == reads_as(key is Paths, v),
{
    let n = key.repo()->0;
    let e = change_repo_field(entry_or(s, n, SharedRepoModel::empty()), key, Some(v));
    lemma_key_parts(KeyModel::Shared(key));
    lemma_answer_fields();
    if let SharedKeyModel::Branchtype(_, b) = key {
        assert(e.branchtypes.contains_key(b));
        assert(!Map::<Text, Text>::empty().contains_key(b));
    }
    let s2 = change_repo(s, key, Some(v));
    if e.is_empty() {
        assert(s2.get(n) is None);
    } else {
        assert(s2.get(n) == Some(e));
    }
    assert(merged(s2, p, home).contains_key(n) ==> merged(s2, p, home)[n] == merged_entry(
        s2.get(n),
        p.get(n),
        home,
    ));
}

/// `env get` gives back what `env set --private` wrote, whatever the shared
/// layer says. Auth settings are never shown.
pub proof fn law_get_after_private_set(
    s: Map<Text, SharedRepoModel>,
    p: Map<Text, PrivateRepoModel>,
    home: Option<Text>,
    key: PrivateKeyModel,
    v: Text,
)
    requires
        KeyModel::Private(key).repo_shaped(),
        key is PathsOverride ==> parsed_paths(v).len() > 0,
    ensures
        looked_up(
            merged(s, change_private(p, key, Some(v)), home),
            KeyModel::Private(key).dotted(),
        ) == (if key is Auth {
            None
        } else {
            reads_as(key is PathsOverride, v)
        }),
{
    let n = key.repo();
    let e = change_private_field(entry_or(p, n, PrivateRepoModel::empty()), key, Some(v));
    lemma_key_parts(KeyModel::Private(key));
    lemma_answer_fields();
    if let PrivateKeyModel::BranchtypeOverride(_, b) = key {
        assert(e.branchtypes.contains_key(b));
        assert(!Map::<Text, Text>::empty().contains_key(b));
    }
    assert(!e.is_empty());
    let p2 = change_private(p, key, Some(v));
    assert(p2.get(n) == Some(e));
    assert(merged(s, p2, home)[n] == merged_entry(s.get(n), Some(e), home));
}

proof fn lemma_answer_fields()
    ensures
        "url"@ != "at"@,
        "url"@ != "paths"@,
        "at"@ != "paths"@,
        forall|f: key::AuthField| #![trigger f.text()]
            f.text() != "url"@ && f.text() != "at"@ && f.text() != "paths"@ && f.text()
                != "branchtypes"@,
{
    reveal_strlit("url");
    reveal_strlit("at");
    reveal_strlit("paths");
    reveal_strlit("branchtypes");
    reveal_strlit("key");
    reveal_strlit("helper");
    reveal_strlit("token");
    assert("url"@[0] == 'u' && "at"@[0] == 'a' && "paths"@[0] == 'p' && "branchtypes"@[0] == 'b'
        && "key"@[0] == 'k' && "helper"@[0] == 'h' && "token"@[0] == 't');
}

/// The private layer overrides the shared one field by field, and a repo that
/// only one layer knows reads as that layer has it.
pub proof fn law_private_overrides(
    s: Map<Text, SharedRepoModel>,
    p: Map<Text, PrivateRepoModel>,
    home: Option<Text>,
    n: Text,
    b: Text,
)
    ensures
        merged(s, p, home).contains_key(n) <==> s.contains_key(n) || p.contains_key(n),
        p.contains_key(n) && p[n].at is Some ==> merged(s, p, home)[n].at == p[n].at,
        p.contains_key(n) && p[n].paths.len() > 0 ==> merged(s, p, home)[n].paths == p[n].paths,
        p.contains_key(n) && p[n].branchtypes.contains_key(b) ==> merged(
            s,
            p,
            home,
        )[n].branchtypes.get(b) == Some(p[n].branchtypes[b]),
        s.contains_key(n) ==> merged(s, p, home)[n].url == s[n].url,
        !s.contains_key(n) && p.contains_key(n) ==> merged(s, p, home)[n].url is None,
        s.contains_key(n) && (!p.contains_key(n) || p[n].at is None) ==> merged(s, p, home)[n].at
            == s[n].at,
        s.contains_key(n) && (!p.contains_key(n) || p[n].paths.len() == 0) ==> merged(
            s,
            p,
            home,
        )[n].paths == s[n].paths,
        s.contains_key(n) && !(p.contains_key(n) && p[n].branchtypes.contains_key(b)) ==> merged(
            s,
            p,
            home,
        )[n].branchtypes.get(b) == s[n].branchtypes.get(b),
{
}

} // verus!
