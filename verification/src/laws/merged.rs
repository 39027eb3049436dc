//! What the merged view is for.

use crate::store::{PrivateRepoModel, SharedRepoModel};
use crate::text::Text;
use crate::verbs::merged::{
    auth_count, auth_env, home_expanded, merged, quote_escaped, shell_quoted, MergedRepoModel,
};
use vstd::prelude::*;

verus! {

/// **A leading `~/` stands for the home directory**, where one is known; any
/// other path stands for itself.
pub proof fn law_home(rest: Text, home: Text, p: Text)
    ensures
        home_expanded("~/"@ + rest, Some(home)) == home + "/"@ + rest,
        home_expanded(p, None) == p,
        !"~/"@.is_prefix_of(p) ==> home_expanded(p, Some(home)) == p,
{
    crate::laws::text::law_after_prefix("~/"@ + rest, "~/"@, rest);
}

/// **How a text is quoted for the shell**: between single quotes, where every
/// character stands for itself but the single quote, which stands outside them,
/// behind a backslash.
pub proof fn law_quoting(s: Text, a: Text, b: Text)
    ensures
        !s.contains('\'') ==> shell_quoted(s) == seq!['\''] + s + seq!['\''],
        shell_quoted(a + seq!['\''] + b) == seq!['\''] + quote_escaped(a) + seq![
            '\'',
            '\\',
            '\'',
            '\'',
        ] + quote_escaped(b) + seq!['\''],
        shell_quoted(s) == seq!['\''] + quote_escaped(s) + seq!['\''],
{
    lemma_escaped_plain(s);
    lemma_escaped_add(a + seq!['\''], b);
    lemma_escaped_add(a, seq!['\'']);
    let q = seq!['\''];
    assert(q.drop_first() =~= Seq::empty());
    assert(quote_escaped(q.drop_first()) =~= Seq::empty());
    assert(quote_escaped(q) =~= seq!['\'', '\\', '\'', '\'']);
    assert(shell_quoted(a + seq!['\''] + b) =~= seq!['\''] + quote_escaped(a) + seq![
        '\'',
        '\\',
        '\'',
        '\'',
    ] + quote_escaped(b) + seq!['\'']);
}

proof fn lemma_escaped_plain(s: Text)
    ensures
        !s.contains('\'') ==> quote_escaped(s) == s,
    decreases s.len(),
{
    if s.len() > 0 && !s.contains('\'') {
        let rest = s.drop_first();
        assert forall|i: int| 0 <= i < rest.len() implies rest[i] != '\'' by {
            assert(rest[i] == s[i + 1]);
        }
        lemma_escaped_plain(rest);
        assert(s.contains(s[0]));
        assert(quote_escaped(s) =~= s);
    }
}

proof fn lemma_escaped_add(a: Text, b: Text)
    ensures
        quote_escaped(a + b) == quote_escaped(a) + quote_escaped(b),
    decreases a.len(),
{
    if a.len() == 0 {
        assert(a + b =~= b);
        assert(quote_escaped(a) + quote_escaped(b) =~= quote_escaped(b));
    } else {
        lemma_escaped_add(a.drop_first(), b);
        assert((a + b).drop_first() =~= a.drop_first() + b);
        assert(quote_escaped(a + b) =~= quote_escaped(a) + quote_escaped(b));
    }
}

/// **A key is all that reaches git**: it selects the ssh identity, and no other.
/// A helper and a token are recorded, and set nothing.
pub proof fn law_auth_env(p: PrivateRepoModel, home: Option<Text>)
    ensures
        p.key is None ==> auth_env(p, home).len() == 0,
        p.key matches Some(k) ==> auth_env(p, home) == seq![
            (
                "GIT_SSH_COMMAND"@,
                "ssh -i "@ + shell_quoted(home_expanded(k, home)) + " -o IdentitiesOnly=yes"@,
            ),
        ],
{
}

/// **Every auth setting counts once.**
pub proof fn law_auth_count(p: PrivateRepoModel, k: Text)
    ensures
        p.key is None && p.helper is None && p.token is None ==> auth_count(p) == 0,
        p.key is None ==> auth_count(PrivateRepoModel { key: Some(k), ..p }) == auth_count(p) + 1,
        p.helper is None ==> auth_count(PrivateRepoModel { helper: Some(k), ..p }) == auth_count(p)
            + 1,
        p.token is None ==> auth_count(PrivateRepoModel { token: Some(k), ..p }) == auth_count(p)
            + 1,
{
}

/// **A repo is what the two layers record of it**: the URL is the shared
/// layer's, the placement, the paths and the mappings are the private layer's
/// where it has any and otherwise the shared layer's, and the auth is the
/// private layer's.
pub proof fn law_merged(
    s: Map<Text, SharedRepoModel>,
    p: Map<Text, PrivateRepoModel>,
    home: Option<Text>,
    n: Text,
    b: Text,
)
    ensures
        merged(s, p, home).contains_key(n) <==> s.contains_key(n) || p.contains_key(n),
        s.contains_key(n) && !p.contains_key(n) ==> merged(s, p, home)[n] == (MergedRepoModel {
            url: s[n].url,
            at: s[n].at,
            paths: s[n].paths,
            branchtypes: s[n].branchtypes,
            auth_count: 0,
            auth_env: Seq::empty(),
        }),
        p.contains_key(n) ==> {
            let r = merged(s, p, home)[n];
            &&& r.auth_count == auth_count(p[n])
            &&& r.auth_env == auth_env(p[n], home)
            &&& p[n].at is Some ==> r.at == p[n].at
            &&& p[n].paths.len() > 0 ==> r.paths == p[n].paths
            &&& p[n].branchtypes.contains_key(b) ==> r.branchtypes.contains_key(b)
                && r.branchtypes[b] == p[n].branchtypes[b]
            &&& s.contains_key(n) ==> {
                &&& r.url == s[n].url
                &&& p[n].at is None ==> r.at == s[n].at
                &&& p[n].paths.len() == 0 ==> r.paths == s[n].paths
                &&& !p[n].branchtypes.contains_key(b) ==> r.branchtypes.contains_key(b)
                    == s[n].branchtypes.contains_key(b)
                &&& !p[n].branchtypes.contains_key(b) && s[n].branchtypes.contains_key(b)
                    ==> r.branchtypes[b] == s[n].branchtypes[b]
            }
            &&& !s.contains_key(n) ==> {
                &&& r.url is None
                &&& p[n].at is None ==> r.at is None
                &&& p[n].paths.len() == 0 ==> r.paths.len() == 0
                &&& !p[n].branchtypes.contains_key(b) ==> !r.branchtypes.contains_key(b)
            }
        },
{
}

} // verus!
