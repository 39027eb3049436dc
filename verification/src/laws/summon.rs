//! What `summon` is for.

use crate::key::{valid_name, SharedKeyModel};
use crate::place::{place_of, route};
use crate::proc::{checked, ReplyModel, SpawnModel};
use crate::store::joined_path;
use crate::text::{debug_text, decimal, joined, trimmed, Class, Text};
use crate::textmap::keys_of;
use crate::verbs::merged::MergedRepoModel;
use crate::verbs::summon::{
    is_taken, sparse_write, strays, summoned, unknown, visited, JobModel, StageModel, SummonModel,
    Visit,
};
use crate::verbs::work::{AskModel, EventModel};
use vstd::prelude::*;

verus! {

/// A git process with these words, where a job's repo is to stand and with its
/// auth.
pub open spec fn runs_in(s: SpawnModel, dir: Text, auth: Seq<(Text, Text)>) -> bool {
    &&& s.dir == dir
    &&& s.env == seq![("GIT_TERMINAL_PROMPT"@, "0"@)] + auth
    &&& s.stdin_null
}

/// The invariant of a summon on what it runs last in a repo.
spec fn on_the_way(start: SummonModel, s: SummonModel) -> bool {
    &&& s.root == start.root
    &&& s.taken == start.taken
    &&& s.jobs == start.jobs
    &&& 0 <= s.at <= s.jobs.len()
    &&& s.at < s.jobs.len() ==> (s.stage matches StageModel::Sparse { spawn } ==> {
        let job = s.jobs[s.at];
        &&& runs_in(spawn, job.target, job.auth)
        &&& job.paths.len() > 0 ==> spawn.argv == seq!["git"@, "sparse-checkout"@, "set"@]
            + job.paths
        &&& job.paths.len() == 0 ==> spawn.argv == seq![
            "git"@,
            "sparse-checkout"@,
            "disable"@,
        ]
    })
}

proof fn lemma_on_the_way(start: SummonModel, es: Seq<EventModel>)
    requires
        start.at == 0,
        !(start.stage is Sparse),
    ensures
        on_the_way(start, start.after_all(es)),
    decreases es.len(),
{
    if es.len() > 0 {
        lemma_on_the_way(start, es.drop_last());
    }
}

/// **Every sparse path is applied, and nothing else**: the process that a
/// summon runs last in a repo, the one whose success is told as the repo's, is
/// `git sparse-checkout set` with the recorded paths behind it, one word for
/// each in the recorded order. Where no paths are recorded it is
/// `git sparse-checkout disable`.
pub proof fn law_every_sparse_path_is_applied(
    root: Text,
    m: Map<Text, MergedRepoModel>,
    names: Seq<Text>,
    es: Seq<EventModel>,
    e: EventModel,
)
    requires
        summoned(root, m, names) is Ok,
        summoned(root, m, names)->Ok_0.after_all(es).next() is Run,
        summoned(root, m, names)->Ok_0.after_all(es).after(e).next() is Say,
    ensures
        ({
            let s = summoned(root, m, names)->Ok_0.after_all(es);
            let name = s.jobs[s.at].name;
            let paths = m[name].paths;
            let argv = s.next()->Run_0.argv;
            &&& runs_in(
                s.next()->Run_0,
                joined_path(root, place_of(m[name].at, m[name].url, name)),
                m[name].auth_env,
            )
            &&& paths.len() > 0 ==> {
                &&& argv.len() == 3 + paths.len()
                &&& argv[0] == "git"@
                &&& argv[1] == "sparse-checkout"@
                &&& argv[2] == "set"@
                &&& forall|i: int| 0 <= i < paths.len() ==> #[trigger] argv[3 + i] == paths[i]
            }
            &&& paths.len() == 0 ==> argv == seq!["git"@, "sparse-checkout"@, "disable"@]
        }),
{
    let start = summoned(root, m, names)->Ok_0;
    lemma_on_the_way(start, es);
    let s = start.after_all(es);
    let job = s.jobs[s.at];
    assert(s.stage is Sparse);
}

/// **One job for each repo that is named, in that order, or for every repo**:
/// each has the repo's URL, placement, sparse paths and auth.
pub proof fn law_jobs(root: Text, m: Map<Text, MergedRepoModel>, names: Seq<Text>, i: int)
    requires
        summoned(root, m, names) is Ok,
    ensures
        ({
            let s = summoned(root, m, names)->Ok_0;
            let chosen = if names.len() == 0 {
                keys_of(m)
            } else {
                names
            };
            &&& s.root == root
            &&& s.at == 0
            &&& s.errs == 0
            &&& s.jobs.len() == chosen.len()
            &&& 0 <= i < chosen.len() ==> s.jobs[i] == (JobModel {
                name: chosen[i],
                url: m[chosen[i]].url,
                target: joined_path(root, place_of(m[chosen[i]].at, m[chosen[i]].url, chosen[i])),
                paths: m[chosen[i]].paths,
                auth: m[chosen[i]].auth_env,
            })
            &&& s.taken == keys_of(m).map_values(
                |k: Text| joined_path(root, place_of(m[k].at, m[k].url, k)),
            )
        }),
{
}

/// **A name that is not registered is refused**, and so is the whole summon; the
/// first such name is told. Otherwise the summon begins.
pub proof fn law_unknown_name_is_refused(
    root: Text,
    m: Map<Text, MergedRepoModel>,
    names: Seq<Text>,
)
    ensures
        ({
            let lacking = names.filter(|n: Text| !m.contains_key(n));
            &&& summoned(root, m, names) is Ok <==> lacking.len() == 0
            &&& lacking.len() > 0 ==> summoned(root, m, names) == Err::<SummonModel, Text>(
                "summon: unknown repo "@ + debug_text(lacking[0]),
            )
        }),
{
    lemma_unknown(m, names);
}

proof fn lemma_unknown(m: Map<Text, MergedRepoModel>, names: Seq<Text>)
    ensures
        ({
            let lacking = names.filter(|n: Text| !m.contains_key(n));
            &&& lacking.len() == 0 ==> unknown(m, names) is None
            &&& lacking.len() > 0 ==> unknown(m, names) == Some(lacking[0])
        }),
    decreases names.len(),
{
    reveal(Seq::filter);
    if names.len() > 0 {
        lemma_unknown(m, names.drop_last());
    }
}

/// **The repos are worked on one after the other**: a repo with a URL begins by
/// looking for its placement; one without is reported, and nothing is asked of
/// the disk for it.
pub proof fn law_how_a_repo_begins(s: SummonModel, res: Result<(), Text>)
    requires
        0 <= s.at < s.jobs.len(),
        s.stage == StageModel::Tell(res),
    ensures
        ({
            let t = s.after(EventModel::Said);
            &&& t.at == s.at + 1
            &&& t.jobs == s.jobs
            &&& t.errs == s.errs + (if res is Err {
                1nat
            } else {
                0nat
            })
            &&& t.at < t.jobs.len() && t.jobs[t.at].url is Some ==> t.next() == AskModel::Probe(
                t.jobs[t.at].target,
            ) && t.stage is Probe
            &&& t.at < t.jobs.len() && t.jobs[t.at].url is None ==> t.next() == AskModel::Warn(
                "  "@ + t.jobs[t.at].name + ": no url recorded\n"@,
            )
            &&& t.at == t.jobs.len() && t.errs == 0 ==> t.next() == AskModel::End(
                Ok::<Text, Text>(Seq::empty()),
            )
            &&& t.at == t.jobs.len() && t.errs > 0 ==> t.next() == AskModel::End(
                Err::<Text, Text>("summon: "@ + decimal(t.errs) + " repo(s) failed"@),
            )
        }),
{
    let t = s.after(EventModel::Said);
    if t.at < t.jobs.len() && t.jobs[t.at].url is None {
        reveal_strlit("no url recorded");
        reveal_strlit("\n");
        reveal_strlit(": ");
        reveal_strlit(": no url recorded\n");
        let name = t.jobs[t.at].name;
        assert("  "@ + name + ": "@ + "no url recorded"@ + "\n"@ =~= "  "@ + name
            + ": no url recorded\n"@);
    }
}

/// **What happens in a repo that is in place**: git is asked for the branch,
/// that branch is checked out, the sparse paths are applied, and it is said
/// that all went well.
pub proof fn law_way_of_a_repo_in_place(
    s: SummonModel,
    parent: Option<Text>,
    file_name: Option<Text>,
    head: ReplyModel,
    out: ReplyModel,
    sparse: ReplyModel,
)
    requires
        0 <= s.at < s.jobs.len(),
        s.stage is Probe,
        head.ok(),
        out.ok(),
        sparse.ok(),
    ensures
        ({
            let job = s.jobs[s.at];
            let s1 = s.after(EventModel::Probed { exists: true, parent, file_name });
            let s2 = s1.after(EventModel::Ran(head));
            let s3 = s2.after(EventModel::Ran(out));
            let s4 = s3.after(EventModel::Ran(sparse));
            &&& s.next() == AskModel::Probe(job.target)
            &&& s1.next() matches AskModel::Run(p) && runs_in(p, job.target, job.auth) && p.argv
                == seq!["git"@, "symbolic-ref"@, "--short"@, "HEAD"@]
            &&& s2.next() matches AskModel::Run(p) && runs_in(p, job.target, job.auth) && p.argv
                == seq!["git"@, "checkout"@, trimmed(head->Ran_0.stdout, Class::White)]
            &&& s3.next() matches AskModel::Run(p) && runs_in(p, job.target, job.auth) && p.argv
                == (if job.paths.len() > 0 {
                seq!["git"@, "sparse-checkout"@, "set"@] + job.paths
            } else {
                seq!["git"@, "sparse-checkout"@, "disable"@]
            })
            &&& s4.next() == AskModel::Say("  "@ + job.name + ": ok\n"@)
            &&& s4.at == s.at && s4.errs == s.errs && s4.stage == StageModel::Tell(
                Ok::<(), Text>(()),
            )
        }),
{
    let s1 = s.after(EventModel::Probed { exists: true, parent, file_name });
    let s2 = s1.after(EventModel::Ran(head));
    let s3 = s2.after(EventModel::Ran(out));
    let s4 = s3.after(EventModel::Ran(sparse));
    assert(s4.stage matches StageModel::Tell(Ok(_)));
    let nothing = s4.stage->Tell_0->Ok_0;
    assert(nothing == ());
}

/// **A repo that is nowhere is cloned to its placement**: where no tree of its
/// URL stands outside the placements, its parent is made, metainfo is cloned
/// there, and the repo goes on as one that is in place.
pub proof fn law_repo_that_is_nowhere_is_cloned(
    s: SummonModel,
    parent: Text,
    dest: Text,
    found: Seq<(Text, Text)>,
    r: ReplyModel,
)
    requires
        0 <= s.at < s.jobs.len(),
        s.stage is Probe,
        s.jobs[s.at].url is Some,
        r.ok(),
        strays(s.root, found, s.jobs[s.at].url->0, s.taken).len() == 0,
    ensures
        ({
            let job = s.jobs[s.at];
            let s1 = s.after(
                EventModel::Probed { exists: false, parent: Some(parent), file_name: Some(dest) },
            );
            let s2 = s1.after(EventModel::Found(found));
            let s3 = s2.after(EventModel::Done(Ok(())));
            let s4 = s3.after(EventModel::Ran(r));
            &&& s1.next() == AskModel::Trees
            &&& s2.next() == AskModel::MakeDir(parent)
            &&& s3.next() matches AskModel::Run(p) && runs_in(p, parent, job.auth) && p.argv
                == seq![
                "git"@,
                "clone"@,
                "--filter=blob:none"@,
                "--sparse"@,
                "--no-checkout"@,
                "--"@,
                job.url->0,
                dest,
            ]
            &&& s4.next() matches AskModel::Run(p) && runs_in(p, job.target, job.auth) && p.argv
                == seq!["git"@, "symbolic-ref"@, "--short"@, "HEAD"@]
        }),
{
}

/// **Which trees may be moved**: those of the URL that was asked for that stand
/// where no repo is placed, in the order in which they were found.
pub proof fn law_strays(root: Text, found: Seq<(Text, Text)>, url: Text, taken: Seq<Text>)
    ensures
        strays(root, found, url, taken) == found.filter(
            |t: (Text, Text)|
                t.1 == url && !exists|j: int|
                    0 <= j < taken.len() && route(#[trigger] taken[j]) == route(
                        joined_path(root, t.0),
                    ),
        ).map_values(|t: (Text, Text)| t.0),
    decreases found.len(),
{
    reveal(Seq::filter);
    let f = |t: (Text, Text)|
        t.1 == url && !exists|j: int|
            0 <= j < taken.len() && route(#[trigger] taken[j]) == route(joined_path(root, t.0));
    let g = |t: (Text, Text)| t.0;
    if found.len() > 0 {
        let init = found.drop_last();
        law_strays(root, init, url, taken);
        let p = joined_path(root, found.last().0);
        assert(is_taken(taken, p) == exists|j: int|
            0 <= j < taken.len() && route(#[trigger] taken[j]) == route(p)) by {
            if is_taken(taken, p) {
                let j = choose|j: int|
                    0 <= j < taken.len() && #[trigger] route(taken[j]) == route(p);
                assert(route(taken[j]) == route(p));
            }
        }
        if f(found.last()) {
            assert(found.filter(f) == init.filter(f).push(found.last()));
            assert(init.filter(f).push(found.last()).map_values(g) =~= init.filter(f).map_values(
                g,
            ).push(found.last().0));
        }
    }
}

/// **The one stray tree is moved if it is clean**: git is asked in that tree;
/// where it has nothing to tell, the parent of the placement is made, the tree
/// is moved from where it was found to the placement, and the repo goes on as
/// one that is in place. Where git has something to tell, nothing is moved.
pub proof fn law_stray_tree(
    s: SummonModel,
    parent: Text,
    dest: Option<Text>,
    found: Seq<(Text, Text)>,
    tree: Text,
    r: ReplyModel,
)
    requires
        0 <= s.at < s.jobs.len(),
        s.stage is Probe,
        s.jobs[s.at].url is Some,
        strays(s.root, found, s.jobs[s.at].url->0, s.taken) == seq![tree],
        r.ok(),
    ensures
        ({
            let job = s.jobs[s.at];
            let from = joined_path(s.root, tree);
            let s1 = s.after(
                EventModel::Probed { exists: false, parent: Some(parent), file_name: dest },
            );
            let s2 = s1.after(EventModel::Found(found));
            let s3 = s2.after(EventModel::Ran(r));
            let s4 = s3.after(EventModel::Done(Ok(())));
            let s5 = s4.after(EventModel::Done(Ok(())));
            &&& s2.next() matches AskModel::Run(p) && runs_in(p, from, job.auth) && p.argv
                == seq!["git"@, "status"@, "--porcelain"@]
            &&& trimmed(r->Ran_0.stdout, Class::White).len() == 0 ==> {
                &&& s3.next() == AskModel::MakeDir(parent)
                &&& s4.next() == AskModel::Rename(from, job.target)
                &&& s5.next() matches AskModel::Run(p) && runs_in(p, job.target, job.auth)
                    && p.argv == seq!["git"@, "symbolic-ref"@, "--short"@, "HEAD"@]
            }
            &&& trimmed(r->Ran_0.stdout, Class::White).len() > 0 ==> s3.next() == AskModel::Warn(
                "  "@ + job.name + ": "@ + ("working tree at "@ + from + " is dirty, not moved to "@
                    + job.target) + "\n"@,
            )
        }),
{
}

/// **More than one stray tree is refused**: their number, the URL and every one
/// of them is told.
pub proof fn law_many_stray_trees(
    s: SummonModel,
    parent: Text,
    dest: Option<Text>,
    found: Seq<(Text, Text)>,
)
    requires
        0 <= s.at < s.jobs.len(),
        s.stage is Probe,
        s.jobs[s.at].url is Some,
        strays(s.root, found, s.jobs[s.at].url->0, s.taken).len() > 1,
    ensures
        ({
            let job = s.jobs[s.at];
            let trees = strays(s.root, found, job.url->0, s.taken);
            let s1 = s.after(
                EventModel::Probed { exists: false, parent: Some(parent), file_name: dest },
            );
            let s2 = s1.after(EventModel::Found(found));
            s2.next() == AskModel::Warn(
                "  "@ + job.name + ": "@ + (decimal(trees.len()) + " working trees of "@
                    + job.url->0 + ": "@ + joined(trees, ", "@)) + "\n"@,
            )
        }),
{
}

/// **Where the placement has no parent, the workspace stands for it; where it
/// has no name, nothing is cloned.**
pub proof fn law_placement_at_the_edge(
    s: SummonModel,
    parent: Option<Text>,
    dest: Option<Text>,
    found: Seq<(Text, Text)>,
)
    requires
        0 <= s.at < s.jobs.len(),
        s.stage is Probe,
        s.jobs[s.at].url is Some,
        strays(s.root, found, s.jobs[s.at].url->0, s.taken).len() == 0,
    ensures
        ({
            let job = s.jobs[s.at];
            let s2 = s.after(
                EventModel::Probed { exists: false, parent, file_name: dest },
            ).after(EventModel::Found(found));
            let s3 = s2.after(EventModel::Done(Ok(())));
            &&& s2.next() == AskModel::MakeDir(
                match parent {
                    Some(p) => p,
                    None => s.root,
                },
            )
            &&& dest is None ==> s3.next() == AskModel::Warn(
                "  "@ + job.name + ": "@ + "bad target name"@ + "\n"@,
            )
        }),
{
}

/// **What fails ends its repo, and only that**: a process that fails, a
/// directory that could not be made and a tree that could not be moved are told
/// with the reason, and nothing more is done in that repo.
pub proof fn law_failure_ends_its_repo(
    s: SummonModel,
    spawn: SpawnModel,
    r: ReplyModel,
    why: Text,
)
    requires
        0 <= s.at < s.jobs.len(),
    ensures
        s.next() == AskModel::Run(spawn) && !r.ok() ==> {
            let t = s.after(EventModel::Ran(r));
            &&& checked(spawn, r) is Err
            &&& t.next() == AskModel::Warn(
                "  "@ + s.jobs[s.at].name + ": "@ + checked(spawn, r)->Err_0 + "\n"@,
            )
            &&& t.at == s.at
            &&& t.errs == s.errs
        },
        s.next() is MakeDir || s.next() is Rename ==> {
            let t = s.after(EventModel::Done(Err(why)));
            &&& t.next() == AskModel::Warn("  "@ + s.jobs[s.at].name + ": "@ + why + "\n"@)
            &&& t.at == s.at
            &&& t.errs == s.errs
        },
{
}

/// **`--paths` needs one repo**, and records for it all paths, with commas
/// between; without `--paths` nothing is recorded.
pub proof fn law_paths_need_one_repo(repos: Seq<Text>, paths: Seq<Text>)
    ensures
        paths.len() == 0 ==> sparse_write(repos, paths) == Ok::<
            Option<(SharedKeyModel, Text)>,
            Text,
        >(None),
        paths.len() > 0 && repos.len() != 1 ==> sparse_write(repos, paths) == Err::<
            Option<(SharedKeyModel, Text)>,
            Text,
        >("summon --paths requires exactly one repo"@),
        paths.len() > 0 && repos.len() == 1 && valid_name(repos[0]) ==> sparse_write(repos, paths)
            == Ok::<Option<(SharedKeyModel, Text)>, Text>(
            Some((SharedKeyModel::Paths(repos[0]), joined(paths, ","@))),
        ),
        paths.len() > 0 && repos.len() == 1 && !valid_name(repos[0]) ==> sparse_write(repos, paths)
            == Err::<Option<(SharedKeyModel, Text)>, Text>(
            "invalid repo name: "@ + debug_text(repos[0]),
        ),
{
}

/// **What was not waited for changes nothing.**
pub proof fn law_only_answers_count(s: SummonModel, e: EventModel)
    ensures
        !s.next().answered_by(e) ==> s.after(e) == s,
{
}

/// **The search looks into every directory but git's and the workspace's own**,
/// and takes one that holds a `.git` for a working tree.
pub proof fn law_search(name: Text, holds_git: bool)
    ensures
        visited(name, false, holds_git) == Visit::Skip,
        visited(".git"@, true, holds_git) == Visit::Skip,
        visited(".xen"@, true, holds_git) == Visit::Skip,
        name != ".git"@ && name != ".xen"@ ==> visited(name, true, true) == Visit::Tree,
        name != ".git"@ && name != ".xen"@ ==> visited(name, true, false) == Visit::Descend,
{
}

} // verus!
