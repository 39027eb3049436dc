//! The merged read view: the shared layer with the private layer on top.

use crate::place::{place, place_of};
use crate::proc::{law_quiet, spawn_of, value_in};
use crate::store::{
    PrivateConfig, PrivateRepo, PrivateRepoModel, SharedConfig, SharedRepo, SharedRepoModel,
};
use crate::text::{self, Text};
use crate::textmap::{keys_of, TextMap};
use vstd::prelude::*;

verus! {

/// One repo as the verbs see it.
#[derive(Debug)]
pub struct MergedRepo {
    /// Where the repo is cloned from.
    pub url: Option<String>,
    /// Where it materializes, if that is recorded.
    pub at: Option<String>,
    /// The sparse paths; none means the full tree.
    pub paths: Vec<String>,
    /// The branch that each branchtype stands for.
    pub branchtypes: TextMap<String>,
    /// How many auth settings are recorded.
    pub auth_count: usize,
    /// Environment variables for every git process of this repo.
    pub auth_env: Vec<(String, String)>,
}

/// What a `MergedRepo` stands for.
#[verifier::ext_equal]
pub struct MergedRepoModel {
    pub url: Option<Text>,
    pub at: Option<Text>,
    pub paths: Seq<Text>,
    pub branchtypes: Map<Text, Text>,
    pub auth_count: nat,
    pub auth_env: Seq<(Text, Text)>,
}

impl DeepView for MergedRepo {
    type V = MergedRepoModel;

    open spec fn deep_view(&self) -> MergedRepoModel {
        MergedRepoModel {
            url: self.url.deep_view(),
            at: self.at.deep_view(),
            paths: self.paths.deep_view(),
            branchtypes: self.branchtypes.deep_view(),
            auth_count: self.auth_count as nat,
            auth_env: self.auth_env.deep_view(),
        }
    }
}

/// All repos as the verbs see them.
#[derive(Debug)]
pub struct Merged {
    /// The repos by name.
    pub repos: TextMap<MergedRepo>,
}

impl DeepView for Merged {
    type V = Map<Text, MergedRepoModel>;

    open spec fn deep_view(&self) -> Map<Text, MergedRepoModel> {
        self.repos.deep_view()
    }
}

// --- auth -------------------------------------------------------------------

/// `p` with a leading `~/` expanded against the home directory, where one is
/// known.
pub open spec fn home_expanded(p: Text, home: Option<Text>) -> Text {
    match (text::after_prefix(p, "~/"@), home) {
        (Some(rest), Some(h)) => h + "/"@ + rest,
        _ => p,
    }
}

/// Expands a leading `~/` against the user's home directory.
pub fn expand_home(p: &str, home: Option<&str>) -> (r: String)
    ensures
        r@ == home_expanded(p@, home.deep_view()),
{
    if let Some(rest) = text::strip_prefix(p, "~/") {
        if let Some(h) = home {
            return text::cat(text::cat(h, "/").as_str(), rest.as_str());
        }
    }
    p.to_owned()
}

/// What stands for one character between single quotes.
pub open spec fn quote_escape(c: char) -> Text {
    if c == '\'' {
        seq!['\'', '\\', '\'', '\'']
    } else {
        seq![c]
    }
}

/// A text as it stands between single quotes.
pub open spec fn quote_escaped(s: Text) -> Text
    decreases s.len(),
{
    if s.len() == 0 {
        Seq::empty()
    } else {
        quote_escape(s[0]) + quote_escaped(s.drop_first())
    }
}

/// A text as one single-quoted shell word.
pub open spec fn shell_quoted(s: Text) -> Text {
    seq!['\''] + quote_escaped(s) + seq!['\'']
}

proof fn lemma_quote_escaped_push(s: Text, c: char)
    ensures
        quote_escaped(s.push(c)) == quote_escaped(s) + quote_escape(c),
    decreases s.len(),
{
    if s.len() == 0 {
        assert(s.push(c).drop_first() =~= s);
        assert(quote_escaped(s.push(c)) =~= quote_escape(c));
        assert(quote_escaped(s) + quote_escape(c) =~= quote_escape(c));
    } else {
        lemma_quote_escaped_push(s.drop_first(), c);
        assert(s.push(c).drop_first() =~= s.drop_first().push(c));
        assert(quote_escaped(s.push(c)) =~= quote_escaped(s) + quote_escape(c));
    }
}

/// What a POSIX shell reads from a text made of single-quoted parts and
/// escaped characters, as one word; nothing where it is no such text. Between
/// single quotes every character stands for itself; outside, a backslash keeps
/// the character behind it.
pub open spec fn shell_word(s: Text, within: bool) -> Option<Text>
    decreases s.len(),
{
    if s.len() == 0 {
        if within {
            None
        } else {
            Some(Seq::empty())
        }
    } else if s[0] == '\'' {
        shell_word(s.drop_first(), !within)
    } else if within {
        match shell_word(s.drop_first(), true) {
            Some(rest) => Some(seq![s[0]] + rest),
            None => None,
        }
    } else if s[0] == '\\' && s.len() > 1 && s[1] != '\n' {
        match shell_word(s.skip(2), false) {
            Some(rest) => Some(seq![s[1]] + rest),
            None => None,
        }
    } else {
        None
    }
}

proof fn lemma_quoted_reads_back(s: Text)
    ensures
        shell_word(quote_escaped(s) + seq!['\''], true) == Some(s),
    decreases s.len(),
{
    let q = quote_escaped(s) + seq!['\''];
    if s.len() == 0 {
        assert(q =~= seq!['\'']);
        assert(q.drop_first() =~= Seq::empty());
        assert(shell_word(q.drop_first(), false) == Some(Seq::<char>::empty()));
        assert(s =~= Seq::empty());
    } else {
        let rest = s.drop_first();
        let tail = quote_escaped(rest) + seq!['\''];
        lemma_quoted_reads_back(rest);
        assert(q =~= quote_escape(s[0]) + tail);
        assert(s =~= seq![s[0]] + rest);
        if s[0] == '\'' {
            let a = q.drop_first();
            assert(a[0] == '\\' && a[1] == '\'');
            let b = a.skip(2);
            assert(b[0] == '\'');
            assert(b.drop_first() =~= tail);
            assert(shell_word(b, false) == Some(rest));
            assert(shell_word(a, false) == Some(seq!['\''] + rest));
        } else {
            assert(q.drop_first() =~= tail);
        }
    }
}

/// **A quoted text reads back as itself**: whatever it holds, a shell takes it
/// as one word with exactly that content.
pub proof fn law_shell_reads_back(s: Text)
    ensures
        shell_word(shell_quoted(s), false) == Some(s),
{
    lemma_quoted_reads_back(s);
    assert(shell_quoted(s).drop_first() =~= quote_escaped(s) + seq!['\'']);
}

/// POSIX single-quote escaping: every `'` becomes `'\''`.
pub fn shell_single_quote(s: &str) -> (r: String)
    ensures
        r@ == shell_quoted(s@),
{
    let cs: Vec<char> = text::chars_of(s);
    let mut out: String = "'".to_owned();
    proof {
        reveal_strlit("'");
        assert(s@.take(0) =~= Seq::<char>::empty());
        assert(out@ =~= seq!['\''] + quote_escaped(s@.take(0)));
    }
    for i in 0..cs.len()
        invariant
            cs@ == s@,
            out@ == seq!['\''] + quote_escaped(s@.take(i as int)),
    {
        let ghost done = out@;
        if cs[i] == '\'' {
            out.append("'\\''");
            proof {
                reveal_strlit("'\\''");
                assert("'\\''"@ =~= quote_escape('\''));
            }
        } else {
            out.append(text::slice(s, i, i + 1).as_str());
            assert(s@.subrange(i as int, i + 1) =~= quote_escape(s@[i as int]));
        }
        proof {
            lemma_quote_escaped_push(s@.take(i as int), s@[i as int]);
            assert(s@.take(i as int).push(s@[i as int]) =~= s@.take(i + 1));
            assert(out@ =~= seq!['\''] + quote_escaped(s@.take(i + 1)));
        }
    }
    proof {
        reveal_strlit("'");
        assert(s@.take(s@.len() as int) =~= s@);
        assert("'"@ =~= seq!['\'']);
    }
    out.append("'");
    out
}

/// The environment that makes git honor the auth settings of a repo.
pub open spec fn auth_env(p: PrivateRepoModel, home: Option<Text>) -> Seq<(Text, Text)> {
    match p.key {
        Some(k) => seq![
            (
                "GIT_SSH_COMMAND"@,
                "ssh -i "@ + shell_quoted(home_expanded(k, home)) + " -o IdentitiesOnly=yes"@,
            ),
        ],
        None => Seq::empty(),
    }
}

/// Turns the auth settings of a repo into the environment variables that
/// git needs to honor them. The `key` selects the ssh identity; `helper` and
/// `token` are recorded but set none.
pub fn build_auth_env(p: &PrivateRepo, home: Option<&str>) -> (r: Vec<(String, String)>)
    ensures
        r.deep_view() == auth_env(p.deep_view(), home.deep_view()),
{
    let mut env: Vec<(String, String)> = Vec::new();
    if let Some(key) = &p.key {
        let path: String = expand_home(key.as_str(), home);
        let mut cmd: String = text::cat("ssh -i ", shell_single_quote(path.as_str()).as_str());
        cmd.append(" -o IdentitiesOnly=yes");
        env.push(("GIT_SSH_COMMAND".to_owned(), cmd));
    }
    assert(env.deep_view() =~= auth_env(p.deep_view(), home.deep_view()));
    env
}

// --- merging ----------------------------------------------------------------

/// How many auth settings a repo has.
pub open spec fn auth_count(p: PrivateRepoModel) -> nat {
    (if p.key is Some {
        1nat
    } else {
        0nat
    }) + (if p.helper is Some {
        1nat
    } else {
        0nat
    }) + (if p.token is Some {
        1nat
    } else {
        0nat
    })
}

/// One repo from what the two layers record of it: the private layer wins
/// wherever it says something.
pub open spec fn merged_entry(
    s: Option<SharedRepoModel>,
    p: Option<PrivateRepoModel>,
    home: Option<Text>,
) -> MergedRepoModel {
    let base = match s {
        Some(s) => s,
        None => SharedRepoModel::empty(),
    };
    match p {
        None => MergedRepoModel {
            url: base.url,
            at: base.at,
            paths: base.paths,
            branchtypes: base.branchtypes,
            auth_count: 0,
            auth_env: Seq::empty(),
        },
        Some(p) => MergedRepoModel {
            url: base.url,
            at: if p.at is Some {
                p.at
            } else {
                base.at
            },
            paths: if p.paths.len() > 0 {
                p.paths
            } else {
                base.paths
            },
            branchtypes: base.branchtypes.union_prefer_right(p.branchtypes),
            auth_count: auth_count(p),
            auth_env: auth_env(p, home),
        },
    }
}

/// All repos from the two layers.
pub open spec fn merged(
    s: Map<Text, SharedRepoModel>,
    p: Map<Text, PrivateRepoModel>,
    home: Option<Text>,
) -> Map<Text, MergedRepoModel> {
    Map::new(
        |n: Text| s.contains_key(n) || p.contains_key(n),
        |n: Text| merged_entry(s.get(n), p.get(n), home),
    )
}

/// A copy of a list of strings.
pub fn copy_texts(v: &Vec<String>) -> (r: Vec<String>)
    ensures
        r.deep_view() == v.deep_view(),
{
    let mut out: Vec<String> = Vec::new();
    for i in 0..v.len()
        invariant
            out@.len() == i,
            forall|j: int| 0 <= j < i ==> out@[j]@ == v@[j]@,
    {
        out.push(v[i].clone());
    }
    assert(out.deep_view() =~= v.deep_view());
    out
}

/// A copy of a list of variables.
pub fn copy_env(v: &Vec<(String, String)>) -> (r: Vec<(String, String)>)
    ensures
        r.deep_view() == v.deep_view(),
{
    let mut out: Vec<(String, String)> = Vec::new();
    for i in 0..v.len()
        invariant
            out@.len() == i,
            forall|j: int| 0 <= j < i ==> (#[trigger] out@[j]).deep_view() == v@[j].deep_view(),
    {
        out.push((v[i].0.clone(), v[i].1.clone()));
    }
    assert(out.deep_view() =~= v.deep_view());
    out
}

/// A copy of an optional string.
pub fn copy_option(v: &Option<String>) -> (r: Option<String>)
    ensures
        r.deep_view() == v.deep_view(),
{
    match v {
        Some(t) => Some(t.clone()),
        None => None,
    }
}

/// One map laid over another: where both have a key, `top` wins.
fn overlay(base: &TextMap<String>, top: &TextMap<String>) -> (r: TextMap<String>)
    ensures
        r.deep_view() == base.deep_view().union_prefer_right(top.deep_view()),
{
    let mut out: TextMap<String> = TextMap::new();
    let n: usize = base.len();
    let ghost b = base.deep_view();
    let ghost t = top.deep_view();
    proof {
        text::lemma_sorted(b.dom());
    }
    for i in 0..n
        invariant
            b == base.deep_view(),
            n == keys_of(b).len(),
            out.deep_view() == b.restrict(keys_of(b).take(i as int).to_set()),
            forall|k: Text| b.contains_key(k) <==> keys_of(b).contains(k),
    {
        let ghost q = keys_of(b);
        out.insert(base.key_at(i).to_owned(), base.value_at(i).clone());
        proof {
            lemma_take_set(q, i as int);
            assert(q.contains(q[i as int]));
            assert(out.deep_view() =~= b.restrict(q.take(i + 1).to_set()));
        }
    }
    proof {
        assert(keys_of(b).take(n as int) =~= keys_of(b));
        assert(b.restrict(keys_of(b).to_set()) =~= b);
    }
    let m: usize = top.len();
    proof {
        text::lemma_sorted(t.dom());
        assert(b =~= b.union_prefer_right(t.restrict(keys_of(t).take(0).to_set())));
    }
    for i in 0..m
        invariant
            t == top.deep_view(),
            m == keys_of(t).len(),
            out.deep_view() == b.union_prefer_right(
                t.restrict(keys_of(t).take(i as int).to_set()),
            ),
            forall|k: Text| t.contains_key(k) <==> keys_of(t).contains(k),
    {
        let ghost q = keys_of(t);
        out.insert(top.key_at(i).to_owned(), top.value_at(i).clone());
        proof {
            lemma_take_set(q, i as int);
            assert(q.contains(q[i as int]));
            assert(out.deep_view() =~= b.union_prefer_right(t.restrict(q.take(i + 1).to_set())));
        }
    }
    proof {
        assert(keys_of(t).take(m as int) =~= keys_of(t));
        assert(t.restrict(keys_of(t).to_set()) =~= t);
    }
    out
}

/// The elements of one prefix more.
pub proof fn lemma_take_set(q: Seq<Text>, i: int)
    requires
        0 <= i < q.len(),
    ensures
        q.take(i + 1).to_set() == q.take(i).to_set().insert(q[i]),
{
    let a = q.take(i);
    let b = q.take(i + 1);
    assert(b =~= a.push(q[i]));
    assert forall|x: Text| b.to_set().contains(x) implies a.to_set().insert(q[i]).contains(x) by {
        let k = choose|k: int| 0 <= k < b.len() && b[k] == x;
        if k < i {
            assert(a[k] == x);
        }
    }
    assert forall|x: Text| a.to_set().insert(q[i]).contains(x) implies b.to_set().contains(x) by {
        if a.to_set().contains(x) {
            let k = choose|k: int| 0 <= k < a.len() && a[k] == x;
            assert(b[k] == x);
        } else {
            assert(b[i] == x);
        }
    }
    assert(b.to_set() =~= a.to_set().insert(q[i]));
}

fn merge_entry(s: Option<&SharedRepo>, p: Option<&PrivateRepo>, home: Option<&str>) -> (r: MergedRepo)
    ensures
        r.deep_view() == merged_entry(s.deep_view(), p.deep_view(), home.deep_view()),
{
    let empty: SharedRepo = SharedRepo::default();
    let base: &SharedRepo = match s {
        Some(s) => s,
        None => &empty,
    };
    let none: TextMap<String> = TextMap::new();
    match p {
        None => {
            let r = MergedRepo {
                url: copy_option(&base.url),
                at: copy_option(&base.at),
                paths: copy_texts(&base.paths),
                branchtypes: overlay(&base.branchtypes, &none),
                auth_count: 0,
                auth_env: Vec::new(),
            };
            assert(r.branchtypes.deep_view() =~= base.branchtypes.deep_view());
            assert(r.auth_env.deep_view() =~= Seq::<(Text, Text)>::empty());
            r
        },
        Some(p) => {
            let mut n: usize = 0;
            if p.key.is_some() {
                n = n + 1;
            }
            if p.helper.is_some() {
                n = n + 1;
            }
            if p.token.is_some() {
                n = n + 1;
            }
            MergedRepo {
                url: copy_option(&base.url),
                at: if p.at.is_some() {
                    copy_option(&p.at)
                } else {
                    copy_option(&base.at)
                },
                paths: if p.paths.len() > 0 {
                    copy_texts(&p.paths)
                } else {
                    copy_texts(&base.paths)
                },
                branchtypes: overlay(&base.branchtypes, &p.branchtypes),
                auth_count: n,
                auth_env: build_auth_env(p, home),
            }
        },
    }
}

/// Merges the two layers; the private one overrides the shared one.
pub fn merge(shared: &SharedConfig, private: &PrivateConfig, home: Option<&str>) -> (r: Merged)
    ensures
        r.deep_view() == merged(shared.deep_view(), private.deep_view(), home.deep_view()),
        r.deep_view().dom().finite(),
{
    let ghost s = shared.deep_view();
    let ghost p = private.deep_view();
    let ghost h = home.deep_view();
    let ghost all = merged(s, p, h);
    let mut repos: TextMap<MergedRepo> = TextMap::new();
    let n: usize = shared.repos.len();
    proof {
        text::lemma_sorted(s.dom());
        assert(repos.deep_view() =~= all.restrict(keys_of(s).take(0).to_set()));
    }
    for i in 0..n
        invariant
            s == shared.deep_view(),
            p == private.deep_view(),
            h == home.deep_view(),
            all == merged(s, p, h),
            n == keys_of(s).len(),
            repos.deep_view() == all.restrict(keys_of(s).take(i as int).to_set()),
            forall|k: Text| s.contains_key(k) <==> keys_of(s).contains(k),
    {
        let ghost q = keys_of(s);
        let name: &str = shared.repos.key_at(i);
        let m: MergedRepo = merge_entry(
            Some(shared.repos.value_at(i)),
            private.repos.get(name),
            home,
        );
        repos.insert(name.to_owned(), m);
        proof {
            lemma_take_set(q, i as int);
            assert(q.contains(q[i as int]));
            assert(m.deep_view() == all[q[i as int]]);
            assert(repos.deep_view() =~= all.restrict(q.take(i + 1).to_set()));
        }
    }
    let m: usize = private.repos.len();
    proof {
        text::lemma_sorted(p.dom());
        assert(keys_of(s).take(n as int) =~= keys_of(s));
        assert(keys_of(p).take(0).to_set() =~= Set::empty());
        assert(s.dom().union(keys_of(p).take(0).to_set()) =~= s.dom());
    }
    for i in 0..m
        invariant
            s == shared.deep_view(),
            p == private.deep_view(),
            h == home.deep_view(),
            all == merged(s, p, h),
            m == keys_of(p).len(),
            repos.deep_view() == all.restrict(s.dom().union(keys_of(p).take(i as int).to_set())),
            forall|k: Text| p.contains_key(k) <==> keys_of(p).contains(k),
    {
        let ghost q = keys_of(p);
        let name: &str = private.repos.key_at(i);
        if !shared.repos.contains_key(name) {
            let e: MergedRepo = merge_entry(None, Some(private.repos.value_at(i)), home);
            repos.insert(name.to_owned(), e);
            assert(e.deep_view() == all[q[i as int]]);
        }
        proof {
            lemma_take_set(q, i as int);
            assert(q.contains(q[i as int]));
            assert(repos.deep_view() =~= all.restrict(
                s.dom().union(q.take(i + 1).to_set()),
            ));
        }
    }
    proof {
        assert(keys_of(p).take(m as int) =~= keys_of(p));
        assert(all.restrict(s.dom().union(p.dom())) =~= all);
        assert(all.dom() =~= s.dom().union(p.dom()));
    }
    Merged { repos }
}

/// **Auth never turns the prompt back on**: whatever is recorded for a repo,
/// its processes run with `GIT_TERMINAL_PROMPT=0`.
pub proof fn law_auth_stays_quiet(p: PrivateRepoModel, home: Option<Text>, dir: Text, argv: Seq<Text>)
    ensures
        value_in(spawn_of(dir, argv, auth_env(p, home)).env, "GIT_TERMINAL_PROMPT"@) == Some("0"@),
{
    reveal_strlit("GIT_SSH_COMMAND");
    reveal_strlit("GIT_TERMINAL_PROMPT");
    assert("GIT_SSH_COMMAND"@.len() != "GIT_TERMINAL_PROMPT"@.len());
    let env = auth_env(p, home);
    if env.len() > 0 {
        assert(env.drop_last() =~= Seq::empty());
        assert(value_in(env.drop_last(), "GIT_TERMINAL_PROMPT"@) is None);
    }
    law_quiet(dir, argv, env);
}

// --- placement --------------------------------------------------------------

/// Where a repo materializes.
pub open spec fn placed(r: MergedRepoModel, name: Text) -> Text {
    place_of(r.at, r.url, name)
}

impl MergedRepo {
    /// Where the repo materializes, relative to the workspace root.
    pub fn placement(&self, name: &str) -> (r: String)
        ensures
            r@ == placed(self.deep_view(), name@),
    {
        place(&self.at, &self.url, name)
    }

    /// The environment for every git process of this repo.
    pub fn auth_refs(&self) -> (r: Vec<(String, String)>)
        ensures
            r.deep_view() == self.deep_view().auth_env,
    {
        copy_env(&self.auth_env)
    }
}

} // verus!
