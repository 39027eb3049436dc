//! What `sync` is for.

use crate::place::place_of;
use crate::proc::{checked, ReplyModel, SpawnModel};
use crate::store::joined_path;
use crate::text::{debug_text, decimal, trimmed, Class, Text};
use crate::textmap::keys_of;
use crate::verbs::merged::MergedRepoModel;
use crate::verbs::status::missing_names;
use crate::verbs::sync::{
    ref_kind, suggestions, sync_to, unmapped, JobModel, RefKindModel, RefusalModel, StageModel,
    SyncModel,
};
use crate::verbs::work::{AskModel, EventModel};
use vstd::prelude::*;

verus! {

/// Whether a job brings a repo to the branch `b`, and to nothing else.
pub open spec fn goes_to_branch(j: JobModel, b: Text) -> bool {
    &&& j.shown == b
    &&& j.fetch.argv == seq!["git"@, "fetch"@, "origin"@, b]
    &&& j.checkout.argv == seq!["git"@, "checkout"@, b]
    &&& j.branching is Some
    &&& j.branching->0.known.argv == seq!["git"@, "branch"@, "--list"@, "--"@, b]
    &&& j.branching->0.create.argv == seq!["git"@, "checkout"@, "-b"@, b, "origin/"@ + b]
    &&& j.branching->0.forward.argv == seq!["git"@, "merge"@, "--ff-only"@, "origin/"@ + b]
}

/// Whether every process of a job runs in `dir` with `auth`, and prompts for
/// nothing.
pub open spec fn stands_in(j: JobModel, dir: Text, auth: Seq<(Text, Text)>) -> bool {
    &&& j.fetch.dir == dir
    &&& j.fetch.env == seq![("GIT_TERMINAL_PROMPT"@, "0"@)] + auth
    &&& j.fetch.stdin_null
    &&& j.checkout.dir == dir
    &&& j.checkout.env == seq![("GIT_TERMINAL_PROMPT"@, "0"@)] + auth
    &&& j.checkout.stdin_null
    &&& j.branching matches Some(b) ==> {
        &&& b.known.dir == dir
        &&& b.known.env == seq![("GIT_TERMINAL_PROMPT"@, "0"@)] + auth
        &&& b.known.stdin_null
        &&& b.create.dir == dir
        &&& b.create.env == seq![("GIT_TERMINAL_PROMPT"@, "0"@)] + auth
        &&& b.create.stdin_null
        &&& b.forward.dir == dir
        &&& b.forward.env == seq![("GIT_TERMINAL_PROMPT"@, "0"@)] + auth
        &&& b.forward.stdin_null
    }
}

/// **The prefix says what a ref is**: `refs/heads/` names a branch, `refs/tags/`
/// a tag, and anything else is a branchtype.
pub proof fn law_ref_kind(s: Text)
    ensures
        ref_kind("refs/heads/"@ + s) == RefKindModel::ExplicitBranch(s),
        ref_kind("refs/tags/"@ + s) == RefKindModel::Tag(s),
        !"refs/heads/"@.is_prefix_of(s) && !"refs/tags/"@.is_prefix_of(s) ==> ref_kind(s)
            == RefKindModel::Branchtype(s),
{
    reveal_strlit("refs/heads/");
    reveal_strlit("refs/tags/");
    let h = "refs/heads/"@ + s;
    let t = "refs/tags/"@ + s;
    crate::laws::text::law_after_prefix(h, "refs/heads/"@, s);
    crate::laws::text::law_after_prefix(t, "refs/tags/"@, s);
    assert(h[5] == 'h' && "refs/tags/"@[5] == 't');
    assert(!"refs/tags/"@.is_prefix_of(h));
}

/// **A sync to a branch goes to that branch in every repo**, whatever the repo
/// maps: there is one job for each repo, in name order, and each fetches the
/// branch, looks for it, checks it out or creates it from its upstream, and
/// fast-forwards it, where the repo stands and with the repo's auth.
pub proof fn law_explicit_branch_is_the_same_everywhere(
    root: Text,
    m: Map<Text, MergedRepoModel>,
    b: Text,
    i: int,
)
    ensures
        keys_of(m).len() > 0 ==> (sync_to(root, m, ref_kind("refs/heads/"@ + b)) matches Ok(s) && {
            &&& s.jobs.len() == keys_of(m).len()
            &&& 0 <= i < s.jobs.len() ==> {
                let name = keys_of(m)[i];
                &&& s.jobs[i].name == name
                &&& goes_to_branch(s.jobs[i], b)
                &&& stands_in(
                    s.jobs[i],
                    joined_path(root, place_of(m[name].at, m[name].url, name)),
                    m[name].auth_env,
                )
            }
        }),
{
    law_ref_kind(b);
}

/// **A sync to a branchtype goes to each repo's own branch**: the one that the
/// repo maps the branchtype to.
pub proof fn law_branchtype_is_each_repos_own(
    root: Text,
    m: Map<Text, MergedRepoModel>,
    bt: Text,
    i: int,
)
    requires
        !"refs/heads/"@.is_prefix_of(bt),
        !"refs/tags/"@.is_prefix_of(bt),
        sync_to(root, m, ref_kind(bt)) is Ok,
        0 <= i < keys_of(m).len(),
    ensures
        ({
            let s = sync_to(root, m, ref_kind(bt))->Ok_0;
            let name = keys_of(m)[i];
            &&& s.jobs.len() == keys_of(m).len()
            &&& s.jobs[i].name == name
            &&& m[name].branchtypes.contains_key(bt)
            &&& goes_to_branch(s.jobs[i], m[name].branchtypes[bt])
            &&& stands_in(
                s.jobs[i],
                joined_path(root, place_of(m[name].at, m[name].url, name)),
                m[name].auth_env,
            )
        }),
{
    law_ref_kind(bt);
    law_unmapped_repos(m, keys_of(m), bt);
    lemma_none_missing(m, keys_of(m), bt, i);
}

proof fn lemma_none_missing(m: Map<Text, MergedRepoModel>, ks: Seq<Text>, bt: Text, i: int)
    requires
        0 <= i < ks.len(),
        missing_names(m, ks, bt).len() == 0,
    ensures
        m[ks[i]].branchtypes.contains_key(bt),
    decreases ks.len(),
{
    if i < ks.len() - 1 {
        lemma_none_missing(m, ks.drop_last(), bt, i);
    }
}

/// **A sync to a tag checks out that tag in every repo**, and asks nothing of
/// any branch.
pub proof fn law_tag_is_the_same_everywhere(
    root: Text,
    m: Map<Text, MergedRepoModel>,
    t: Text,
    i: int,
)
    ensures
        keys_of(m).len() > 0 ==> (sync_to(root, m, ref_kind("refs/tags/"@ + t)) matches Ok(s) && {
            &&& s.jobs.len() == keys_of(m).len()
            &&& 0 <= i < s.jobs.len() ==> {
                let name = keys_of(m)[i];
                &&& s.jobs[i].name == name
                &&& s.jobs[i].shown == t
                &&& s.jobs[i].fetch.argv == seq!["git"@, "fetch"@, "--tags"@, "origin"@]
                &&& s.jobs[i].checkout.argv == seq!["git"@, "checkout"@, "refs/tags/"@ + t]
                &&& s.jobs[i].branching is None
                &&& stands_in(
                    s.jobs[i],
                    joined_path(root, place_of(m[name].at, m[name].url, name)),
                    m[name].auth_env,
                )
            }
        }),
{
    law_ref_kind(t);
}

/// **The repos that lack a mapping are exactly those listed**, in order.
pub proof fn law_unmapped_repos(m: Map<Text, MergedRepoModel>, ks: Seq<Text>, bt: Text)
    ensures
        missing_names(m, ks, bt) == ks.filter(|k: Text| !m[k].branchtypes.contains_key(bt)),
    decreases ks.len(),
{
    reveal(Seq::filter);
    if ks.len() > 0 {
        law_unmapped_repos(m, ks.drop_last(), bt);
    }
}

/// **A refusal says what to do about each repo**: how many repos lack the
/// mapping, and a line with a suggestion for each of them.
pub proof fn law_refusal(names: Seq<Text>, bt: Text)
    ensures
        unmapped(names, bt).why == "sync: missing branchtype mappings"@,
        unmapped(names, bt).listing == "fail: "@ + (if names.len() == 1 {
            "1 repo(s) have"@
        } else {
            decimal(names.len()) + " repos have"@
        }) + " no mapping for branchtype "@ + debug_text(bt) + ":\n"@ + names.map_values(
            |n: Text|
                "  "@ + n + "  (suggest: xen env set "@ + n + ".branchtypes."@ + bt
                    + "=<branch>)\n"@,
        ).flatten(),
{
    lemma_suggestions(names, bt);
}

proof fn lemma_suggestions(names: Seq<Text>, bt: Text)
    ensures
        suggestions(names, bt) == names.map_values(
            |n: Text|
                "  "@ + n + "  (suggest: xen env set "@ + n + ".branchtypes."@ + bt
                    + "=<branch>)\n"@,
        ).flatten(),
    decreases names.len(),
{
    let f = |n: Text|
        "  "@ + n + "  (suggest: xen env set "@ + n + ".branchtypes."@ + bt + "=<branch>)\n"@;
    let lines = names.map_values(f);
    lines.lemma_flatten_and_flatten_alt_are_equivalent();
    if names.len() > 0 {
        lemma_suggestions(names.drop_last(), bt);
        assert(lines.drop_last() =~= names.drop_last().map_values(f));
        lines.drop_last().lemma_flatten_and_flatten_alt_are_equivalent();
        assert(lines.last() == f(names.last()));
    }
}

/// **When a sync begins**: there must be a repo, and where a branchtype is
/// named, every repo must map it. The refusal of a branchtype lists exactly
/// the repos that do not.
pub proof fn law_when_a_sync_begins(root: Text, m: Map<Text, MergedRepoModel>, kind: RefKindModel)
    ensures
        keys_of(m).len() == 0 ==> sync_to(root, m, kind) == Err::<SyncModel, RefusalModel>(
            RefusalModel { listing: Seq::empty(), why: "sync: no repos registered"@ },
        ),
        keys_of(m).len() > 0 && !(kind is Branchtype) ==> sync_to(root, m, kind) is Ok,
        keys_of(m).len() > 0 ==> (kind matches RefKindModel::Branchtype(bt) ==> {
            let lacking = keys_of(m).filter(|k: Text| !m[k].branchtypes.contains_key(bt));
            &&& sync_to(root, m, kind) is Ok <==> lacking.len() == 0
            &&& lacking.len() > 0 ==> sync_to(root, m, kind) == Err::<SyncModel, RefusalModel>(
                unmapped(lacking, bt),
            )
        }),
{
    if kind is Branchtype {
        law_unmapped_repos(m, keys_of(m), kind->Branchtype_0);
    }
}

/// **How a sync ends**: with the number of repos that failed, or, where none
/// did, with the number of repos and the ref, of which a branch is not told.
pub proof fn law_how_a_sync_ends(
    root: Text,
    m: Map<Text, MergedRepoModel>,
    kind: RefKindModel,
    s: SyncModel,
)
    requires
        sync_to(root, m, kind) is Ok,
        s.jobs == sync_to(root, m, kind)->Ok_0.jobs,
        s.closing == sync_to(root, m, kind)->Ok_0.closing,
        s.at == s.jobs.len(),
    ensures
        s.errs > 0 ==> s.next() == AskModel::End(
            Err::<Text, Text>("sync: "@ + decimal(s.errs) + " repo(s) failed"@),
        ),
        s.errs == 0 ==> s.next() == AskModel::End(
            Ok::<Text, Text>(
                match kind {
                    RefKindModel::ExplicitBranch(_) => Seq::empty(),
                    RefKindModel::Tag(t) => "ok: "@ + decimal(keys_of(m).len())
                        + " repos synced to "@ + t + "\n"@,
                    RefKindModel::Branchtype(t) => "ok: "@ + decimal(keys_of(m).len())
                        + " repos synced to "@ + t + "\n"@,
                },
            ),
        ),
{
}

/// **A sync starts at the first repo**, with nothing failed.
pub proof fn law_how_a_sync_starts(root: Text, m: Map<Text, MergedRepoModel>, kind: RefKindModel)
    requires
        sync_to(root, m, kind) is Ok,
    ensures
        ({
            let s = sync_to(root, m, kind)->Ok_0;
            &&& s.at == 0
            &&& s.errs == 0
            &&& s.jobs.len() > 0
            &&& s.next() == AskModel::Run(s.jobs[0].fetch)
        }),
{
}

/// **The way of a repo to a branch**, where nothing fails: fetch, look for the
/// branch, check it out if it is there and create it if not, fast-forward it,
/// and say what the repo came to. Then the next repo begins.
pub proof fn law_way_to_a_branch(
    s: SyncModel,
    fetched: ReplyModel,
    looked: ReplyModel,
    came: ReplyModel,
    forwarded: ReplyModel,
)
    requires
        0 <= s.at < s.jobs.len(),
        s.next() == AskModel::Run(s.jobs[s.at].fetch),
        s.stage is Fetch,
        s.jobs[s.at].branching is Some,
        fetched.ok(),
        looked.ok(),
        came.ok(),
        forwarded.ok(),
    ensures
        ({
            let job = s.jobs[s.at];
            let b = job.branching->0;
            let s1 = s.after(EventModel::Ran(fetched));
            let s2 = s1.after(EventModel::Ran(looked));
            let s3 = s2.after(EventModel::Ran(came));
            let s4 = s3.after(EventModel::Ran(forwarded));
            let s5 = s4.after(EventModel::Said);
            &&& s1.next() == AskModel::Run(b.known)
            &&& s2.next() == AskModel::Run(
                if trimmed(looked->Ran_0.stdout, Class::White).len() > 0 {
                    job.checkout
                } else {
                    b.create
                },
            )
            &&& s3.next() == AskModel::Run(b.forward)
            &&& s4.next() == AskModel::Say("  "@ + job.name + ": "@ + job.shown + "\n"@)
            &&& s5 == (SyncModel { at: s.at + 1, ..s })
        }),
{
}

/// **The way of a repo to a tag**, where nothing fails: fetch, check out, and
/// say what the repo came to. Then the next repo begins.
pub proof fn law_way_to_a_tag(s: SyncModel, fetched: ReplyModel, came: ReplyModel)
    requires
        0 <= s.at < s.jobs.len(),
        s.stage is Fetch,
        s.jobs[s.at].branching is None,
        fetched.ok(),
        came.ok(),
    ensures
        ({
            let job = s.jobs[s.at];
            let s1 = s.after(EventModel::Ran(fetched));
            let s2 = s1.after(EventModel::Ran(came));
            let s3 = s2.after(EventModel::Said);
            &&& s.next() == AskModel::Run(job.fetch)
            &&& s1.next() == AskModel::Run(job.checkout)
            &&& s2.next() == AskModel::Say("  "@ + job.name + ": "@ + job.shown + "\n"@)
            &&& s3 == (SyncModel { at: s.at + 1, ..s })
        }),
{
}

/// **A process that fails ends its repo, and only that**: whatever a sync was
/// running, it warns with the reason, counts the failure once, and goes on with
/// the next repo.
pub proof fn law_failure_ends_its_repo(s: SyncModel, spawn: SpawnModel, r: ReplyModel)
    requires
        0 <= s.at < s.jobs.len(),
        s.next() == AskModel::Run(spawn),
        !r.ok(),
    ensures
        ({
            let job = s.jobs[s.at];
            let s1 = s.after(EventModel::Ran(r));
            let s2 = s1.after(EventModel::Said);
            &&& checked(spawn, r) is Err
            &&& s1.next() == AskModel::Warn(
                "  "@ + job.name + ": "@ + checked(spawn, r)->Err_0 + "\n"@,
            )
            &&& s2 == (SyncModel {
                at: s.at + 1,
                stage: StageModel::Fetch,
                errs: s.errs + 1,
                ..s
            })
        }),
{
}

/// **What was not waited for changes nothing.**
pub proof fn law_only_answers_count(s: SyncModel, e: EventModel)
    ensures
        !s.next().answered_by(e) ==> s.after(e) == s,
{
}

} // verus!
