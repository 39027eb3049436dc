//! `summon`: make reality match intent.
//!
//! Each selected repo is brought to where the env says it should be, and its
//! sparse spec is applied. A working tree that stands somewhere else in the
//! workspace is moved; one with uncommitted work is never moved. Every
//! selected repo is attempted, whatever becomes of the others.

use crate::cli::SummonArgs;
use crate::key::{checked_name, valid_name, KeyErrorModel, RepoName, SharedKey, SharedKeyModel};
use crate::place::{route, same_place};
use crate::proc::{self, checked, spawn_of, ReplyModel, Spawn, SpawnModel};
use crate::store::{
    change_repo, join_path, joined_path, law_paths_round_trip, plain_paths, PrivateRepoModel,
    SharedRepoModel,
};
use crate::text::{self, outcome, Class, Text};
use crate::textmap::keys_of;
use crate::verbs::merged::{
    copy_option, copy_texts, merged, Merged, MergedRepo, MergedRepoModel,
};
use crate::verbs::portal::{clone_metainfo, clone_spawn};
use crate::verbs::sync::{dir_of, repo_dir};
use crate::verbs::work::{Ask, AskModel, Event, EventModel};
use vstd::prelude::*;

verus! {

// --- the sparse spec --------------------------------------------------------

/// What `--paths` writes to the env, if it is given: the sparse spec of the
/// one repo that it needs.
pub open spec fn sparse_write(repos: Seq<Text>, paths: Seq<Text>) -> Result<
    Option<(SharedKeyModel, Text)>,
    Text,
> {
    if paths.len() == 0 {
        Ok(None)
    } else if repos.len() != 1 {
        Err("summon --paths requires exactly one repo"@)
    } else {
        match checked_name(repos[0], KeyErrorModel::InvalidRepoName(repos[0])) {
            Ok(name) => Ok(Some((SharedKeyModel::Paths(name), text::joined(paths, ","@)))),
            Err(e) => Err(e.message()),
        }
    }
}

/// `--paths` is sugar for an `env set` then a reconcile: the key and the value
/// to write, if there are any.
pub fn summon_paths(args: &SummonArgs) -> (r: Result<Option<(SharedKey, String)>, String>)
    ensures
        outcome(r) == sparse_write(args.repos.deep_view(), args.paths.deep_view()),
{
    if args.paths.len() == 0 {
        return Ok(None);
    }
    if args.repos.len() != 1 {
        return Err("summon --paths requires exactly one repo".to_owned());
    }
    match RepoName::new(args.repos[0].as_str()) {
        Ok(name) => Ok(Some((SharedKey::Paths(name), text::join(&args.paths, ",")))),
        Err(e) => Err(e.message()),
    }
}

// --- jobs -------------------------------------------------------------------

/// What there is to do in one repo.
#[derive(Debug)]
pub struct Job {
    pub name: String,
    /// Where it is cloned from.
    pub url: Option<String>,
    /// Where it is to stand.
    pub target: String,
    /// The sparse paths; none means the full tree.
    pub paths: Vec<String>,
    pub auth: Vec<(String, String)>,
}

/// What a `Job` stands for.
#[verifier::ext_equal]
pub struct JobModel {
    pub name: Text,
    pub url: Option<Text>,
    pub target: Text,
    pub paths: Seq<Text>,
    pub auth: Seq<(Text, Text)>,
}

impl DeepView for Job {
    type V = JobModel;

    open spec fn deep_view(&self) -> JobModel {
        JobModel {
            name: self.name@,
            url: self.url.deep_view(),
            target: self.target@,
            paths: self.paths.deep_view(),
            auth: self.auth.deep_view(),
        }
    }
}

/// The job of one repo.
pub open spec fn job_of(root: Text, name: Text, r: MergedRepoModel) -> JobModel {
    JobModel {
        name,
        url: r.url,
        target: repo_dir(root, name, r),
        paths: r.paths,
        auth: r.auth_env,
    }
}

fn make_job(root: &str, name: &str, r: &MergedRepo) -> (j: Job)
    ensures
        j.deep_view() == job_of(root@, name@, r.deep_view()),
{
    Job {
        name: name.to_owned(),
        url: copy_option(&r.url),
        target: dir_of(root, name, r),
        paths: copy_texts(&r.paths),
        auth: r.auth_refs(),
    }
}

/// The jobs of the repos `names`, in order.
pub open spec fn jobs_of(root: Text, m: Map<Text, MergedRepoModel>, names: Seq<Text>) -> Seq<
    JobModel,
> {
    Seq::new(names.len(), |i: int| job_of(root, names[i], m[names[i]]))
}

/// Where all repos are placed.
pub open spec fn placements(root: Text, m: Map<Text, MergedRepoModel>) -> Seq<Text> {
    let ks = keys_of(m);
    Seq::new(ks.len(), |i: int| repo_dir(root, ks[i], m[ks[i]]))
}

/// The first of `names` that is not registered.
pub open spec fn unknown(m: Map<Text, MergedRepoModel>, names: Seq<Text>) -> Option<Text>
    decreases names.len(),
{
    if names.len() == 0 {
        None
    } else {
        match unknown(m, names.drop_last()) {
            Some(n) => Some(n),
            None => if m.contains_key(names.last()) {
                None
            } else {
                Some(names.last())
            },
        }
    }
}

/// The repos that are summoned: those that are named, or all of them.
pub open spec fn selected(m: Map<Text, MergedRepoModel>, names: Seq<Text>) -> Seq<Text> {
    if names.len() == 0 {
        keys_of(m)
    } else {
        names
    }
}

// --- the search for working trees -------------------------------------------

/// What the search for working trees does with an entry of a directory.
#[derive(Clone, Copy, Debug, PartialEq, Eq, Structural)]
pub enum Visit {
    /// Leaves it.
    Skip,
    /// Takes it for a working tree, and does not look inside.
    Tree,
    /// Looks inside.
    Descend,
}

/// What the search does with an entry: git's own directories and the
/// workspace's are left, and a directory that holds a `.git` is a working
/// tree.
pub open spec fn visited(name: Text, is_dir: bool, holds_git: bool) -> Visit {
    if !is_dir || name == ".git"@ || name == ".xen"@ {
        Visit::Skip
    } else if holds_git {
        Visit::Tree
    } else {
        Visit::Descend
    }
}

/// Tells what the search does with an entry.
pub fn visit(name: &str, is_dir: bool, holds_git: bool) -> (r: Visit)
    ensures
        r == visited(name@, is_dir, holds_git),
{
    if !is_dir || text::same(name, ".git") || text::same(name, ".xen") {
        Visit::Skip
    } else if holds_git {
        Visit::Tree
    } else {
        Visit::Descend
    }
}

// --- one repo ---------------------------------------------------------------

#[derive(Debug)]
enum Plan {
    Clone(Option<String>),
    Move(String),
}

#[derive(Debug)]
enum Stage {
    Probe,
    Trees { parent: String, dest: Option<String> },
    Status { from: String, parent: String, spawn: Spawn },
    Room { parent: String, plan: Plan },
    Rename { from: String },
    Clone { spawn: Spawn },
    Head { spawn: Spawn },
    Checkout { spawn: Spawn },
    Sparse { spawn: Spawn },
    Tell(Result<(), String>),
}

/// How a placement is filled.
pub enum PlanModel {
    /// By a clone of this name.
    Clone(Option<Text>),
    /// By the working tree that stands there.
    Move(Text),
}

/// How far the current repo has come.
pub enum StageModel {
    Probe,
    Trees { parent: Text, dest: Option<Text> },
    Status { from: Text, parent: Text, spawn: SpawnModel },
    Room { parent: Text, plan: PlanModel },
    Rename { from: Text },
    Clone { spawn: SpawnModel },
    Head { spawn: SpawnModel },
    Checkout { spawn: SpawnModel },
    Sparse { spawn: SpawnModel },
    Tell(Result<(), Text>),
}

impl DeepView for Plan {
    type V = PlanModel;

    closed spec fn deep_view(&self) -> PlanModel {
        match self {
            Plan::Clone(d) => PlanModel::Clone(d.deep_view()),
            Plan::Move(f) => PlanModel::Move(f@),
        }
    }
}

impl DeepView for Stage {
    type V = StageModel;

    closed spec fn deep_view(&self) -> StageModel {
        match self {
            Stage::Probe => StageModel::Probe,
            Stage::Trees { parent, dest } => StageModel::Trees {
                parent: parent@,
                dest: dest.deep_view(),
            },
            Stage::Status { from, parent, spawn } => StageModel::Status {
                from: from@,
                parent: parent@,
                spawn: spawn.deep_view(),
            },
            Stage::Room { parent, plan } => StageModel::Room {
                parent: parent@,
                plan: plan.deep_view(),
            },
            Stage::Rename { from } => StageModel::Rename { from: from@ },
            Stage::Clone { spawn } => StageModel::Clone { spawn: spawn.deep_view() },
            Stage::Head { spawn } => StageModel::Head { spawn: spawn.deep_view() },
            Stage::Checkout { spawn } => StageModel::Checkout { spawn: spawn.deep_view() },
            Stage::Sparse { spawn } => StageModel::Sparse { spawn: spawn.deep_view() },
            Stage::Tell(r) => StageModel::Tell(outcome(*r)),
        }
    }
}

/// Asks git whether a working tree holds uncommitted work.
pub open spec fn status_spawn(dir: Text, auth: Seq<(Text, Text)>) -> SpawnModel {
    spawn_of(dir, seq!["git"@, "status"@, "--porcelain"@], auth)
}

/// Asks git for the current branch.
pub open spec fn head_spawn(job: JobModel) -> SpawnModel {
    spawn_of(job.target, seq!["git"@, "symbolic-ref"@, "--short"@, "HEAD"@], job.auth)
}

/// Reads the current branch into index and worktree.
pub open spec fn checkout_spawn(job: JobModel, branch: Text) -> SpawnModel {
    spawn_of(job.target, seq!["git"@, "checkout"@, branch], job.auth)
}

/// Applies the sparse spec.
pub open spec fn sparse_spawn(job: JobModel) -> SpawnModel {
    if job.paths.len() == 0 {
        spawn_of(job.target, seq!["git"@, "sparse-checkout"@, "disable"@], job.auth)
    } else {
        spawn_of(job.target, seq!["git"@, "sparse-checkout"@, "set"@] + job.paths, job.auth)
    }
}

/// Whether one of the placements `taken` is where `p` leads.
pub open spec fn is_taken(taken: Seq<Text>, p: Text) -> bool {
    exists|j: int| 0 <= j < taken.len() && #[trigger] route(taken[j]) == route(p)
}

/// The working trees of `url` that stand where no repo is placed, relative to
/// the workspace root.
pub open spec fn strays(root: Text, found: Seq<(Text, Text)>, url: Text, taken: Seq<Text>) -> Seq<
    Text,
>
    decreases found.len(),
{
    if found.len() == 0 {
        Seq::empty()
    } else if found.last().1 == url && !is_taken(taken, joined_path(root, found.last().0)) {
        strays(root, found.drop_last(), url, taken).push(found.last().0)
    } else {
        strays(root, found.drop_last(), url, taken)
    }
}

/// What is said where a repo has more than one stray working tree.
pub open spec fn ambiguous(trees: Seq<Text>, url: Text) -> Text {
    text::decimal(trees.len()) + " working trees of "@ + url + ": "@ + text::joined(trees, ", "@)
}

/// What is said where the stray working tree holds uncommitted work.
pub open spec fn dirty(from: Text, target: Text) -> Text {
    "working tree at "@ + from + " is dirty, not moved to "@ + target
}

/// How the work on a repo begins.
pub open spec fn begun(job: JobModel) -> StageModel {
    match job.url {
        Some(_) => StageModel::Probe,
        None => StageModel::Tell(Err("no url recorded"@)),
    }
}

/// What an event leads to in one repo.
pub open spec fn advanced(
    root: Text,
    taken: Seq<Text>,
    job: JobModel,
    stage: StageModel,
    e: EventModel,
) -> StageModel {
    let url = job.url.unwrap();
    match (stage, e) {
        (StageModel::Probe, EventModel::Probed { exists, parent, file_name }) => if exists {
            StageModel::Head { spawn: head_spawn(job) }
        } else {
            StageModel::Trees {
                parent: match parent {
                    Some(p) => p,
                    None => root,
                },
                dest: file_name,
            }
        },
        (StageModel::Trees { parent, dest }, EventModel::Found(found)) => {
            let trees = strays(root, found, url, taken);
            if trees.len() == 0 {
                StageModel::Room { parent, plan: PlanModel::Clone(dest) }
            } else if trees.len() == 1 {
                let from = joined_path(root, trees[0]);
                StageModel::Status { from, parent, spawn: status_spawn(from, job.auth) }
            } else {
                StageModel::Tell(Err(ambiguous(trees, url)))
            }
        },
        (StageModel::Status { from, parent, spawn }, EventModel::Ran(r)) => match checked(
            spawn,
            r,
        ) {
            Err(why) => StageModel::Tell(Err(why)),
            Ok(out) => if text::trimmed(out, Class::White).len() == 0 {
                StageModel::Room { parent, plan: PlanModel::Move(from) }
            } else {
                StageModel::Tell(Err(dirty(from, job.target)))
            },
        },
        (StageModel::Room { parent, plan }, EventModel::Done(done)) => match (done, plan) {
            (Err(why), _) => StageModel::Tell(Err(why)),
            (Ok(_), PlanModel::Clone(Some(dest))) => StageModel::Clone {
                spawn: clone_spawn(parent, url, dest, job.auth),
            },
            (Ok(_), PlanModel::Clone(None)) => StageModel::Tell(Err("bad target name"@)),
            (Ok(_), PlanModel::Move(from)) => StageModel::Rename { from },
        },
        (StageModel::Rename { .. }, EventModel::Done(done)) => match done {
            Err(why) => StageModel::Tell(Err(why)),
            Ok(_) => StageModel::Head { spawn: head_spawn(job) },
        },
        (StageModel::Clone { spawn }, EventModel::Ran(r)) => match checked(spawn, r) {
            Err(why) => StageModel::Tell(Err(why)),
            Ok(_) => StageModel::Head { spawn: head_spawn(job) },
        },
        (StageModel::Head { spawn }, EventModel::Ran(r)) => match checked(spawn, r) {
            Err(why) => StageModel::Tell(Err(why)),
            Ok(out) => StageModel::Checkout {
                spawn: checkout_spawn(job, text::trimmed(out, Class::White)),
            },
        },
        (StageModel::Checkout { spawn }, EventModel::Ran(r)) => match checked(spawn, r) {
            Err(why) => StageModel::Tell(Err(why)),
            Ok(_) => StageModel::Sparse { spawn: sparse_spawn(job) },
        },
        (StageModel::Sparse { spawn }, EventModel::Ran(r)) => match checked(spawn, r) {
            Err(why) => StageModel::Tell(Err(why)),
            Ok(_) => StageModel::Tell(Ok(())),
        },
        _ => stage,
    }
}

fn find_taken(taken: &Vec<String>, p: &str) -> (r: bool)
    ensures
        r == is_taken(taken.deep_view(), p@),
{
    let ghost q = taken.deep_view();
    for i in 0..taken.len()
        invariant
            q == taken.deep_view(),
            forall|j: int| 0 <= j < i ==> #[trigger] route(q[j]) != route(p@),
    {
        if same_place(taken[i].as_str(), p) {
            assert(route(q[i as int]) == route(p@));
            return true;
        }
    }
    false
}

fn find_strays(
    root: &str,
    found: &Vec<(String, String)>,
    url: &str,
    taken: &Vec<String>,
) -> (r: Vec<String>)
    ensures
        r.deep_view() == strays(root@, found.deep_view(), url@, taken.deep_view()),
{
    let ghost q = found.deep_view();
    let mut out: Vec<String> = Vec::new();
    assert(out.deep_view() =~= strays(root@, q.take(0), url@, taken.deep_view()));
    for i in 0..found.len()
        invariant
            q == found.deep_view(),
            out.deep_view() == strays(root@, q.take(i as int), url@, taken.deep_view()),
    {
        let ghost done = out.deep_view();
        assert(q.take(i + 1).drop_last() =~= q.take(i as int));
        let dir: String = join_path(root, found[i].0.as_str());
        if text::same(found[i].1.as_str(), url) && !find_taken(taken, dir.as_str()) {
            out.push(found[i].0.clone());
            assert(out.deep_view() =~= done.push(q[i as int].0));
        }
    }
    assert(q.take(found@.len() as int) =~= q);
    out
}

fn make_head(job: &Job) -> (r: Stage)
    ensures
        r.deep_view() == (StageModel::Head { spawn: head_spawn(job.deep_view()) }),
{
    let spawn: Spawn = proc::git(
        job.target.as_str(),
        &["symbolic-ref", "--short", "HEAD"],
        &job.auth,
    );
    assert(spawn.deep_view().argv =~= head_spawn(job.deep_view()).argv);
    Stage::Head { spawn }
}

fn make_sparse(job: &Job) -> (r: Stage)
    ensures
        r.deep_view() == (StageModel::Sparse { spawn: sparse_spawn(job.deep_view()) }),
{
    if job.paths.len() == 0 {
        let spawn: Spawn = proc::git(
            job.target.as_str(),
            &["sparse-checkout", "disable"],
            &job.auth,
        );
        assert(spawn.deep_view().argv =~= sparse_spawn(job.deep_view()).argv);
        return Stage::Sparse { spawn };
    }
    let mut spawn: Spawn = proc::git(job.target.as_str(), &["sparse-checkout", "set"], &job.auth);
    let ghost head = spawn.argv.deep_view();
    let mut more: Vec<String> = copy_texts(&job.paths);
    let ghost a = spawn.argv@;
    let ghost b = more@;
    spawn.argv.append(&mut more);
    assert(spawn.argv@ =~= a + b);
    assert(spawn.argv.deep_view() =~= head + job.paths.deep_view());
    assert(spawn.deep_view().argv =~= sparse_spawn(job.deep_view()).argv);
    Stage::Sparse { spawn }
}

fn begin(job: &Job) -> (r: Stage)
    ensures
        r.deep_view() == begun(job.deep_view()),
{
    match &job.url {
        Some(_) => Stage::Probe,
        None => Stage::Tell(Err("no url recorded".to_owned())),
    }
}

fn after_trees(
    root: &str,
    taken: &Vec<String>,
    job: &Job,
    url: &str,
    parent: String,
    dest: Option<String>,
    found: &Vec<(String, String)>,
) -> (r: Stage)
    requires
        job.url.deep_view() == Some(url@),
    ensures
        r.deep_view() == advanced(
            root@,
            taken.deep_view(),
            job.deep_view(),
            StageModel::Trees { parent: parent@, dest: dest.deep_view() },
            EventModel::Found(found.deep_view()),
        ),
{
    let trees: Vec<String> = find_strays(root, found, url, taken);
    if trees.len() == 0 {
        Stage::Room { parent, plan: Plan::Clone(dest) }
    } else if trees.len() == 1 {
        let from: String = join_path(root, trees[0].as_str());
        let spawn: Spawn = proc::git(from.as_str(), &["status", "--porcelain"], &job.auth);
        assert(spawn.deep_view().argv =~= status_spawn(from@, job.auth.deep_view()).argv);
        Stage::Status { from, parent, spawn }
    } else {
        let mut e: String = text::count(trees.len());
        e.append(" working trees of ");
        e.append(url);
        e.append(": ");
        e.append(text::join(&trees, ", ").as_str());
        Stage::Tell(Err(e))
    }
}

/// Reconciles one repo with the env, one event at a time.
fn reconcile_one(root: &str, taken: &Vec<String>, job: &Job, stage: Stage, event: &Event) -> (r: Stage)
    requires
        job.url is Some || stage.deep_view() is Tell,
    ensures
        r.deep_view() == advanced(
            root@,
            taken.deep_view(),
            job.deep_view(),
            stage.deep_view(),
            event.deep_view(),
        ),
{
    match (stage, event) {
        (Stage::Probe, Event::Probed { exists, parent, file_name }) => if *exists {
            make_head(job)
        } else {
            Stage::Trees {
                parent: match parent {
                    Some(p) => p.clone(),
                    None => root.to_owned(),
                },
                dest: copy_option(file_name),
            }
        },
        (Stage::Trees { parent, dest }, Event::Found(found)) => match &job.url {
            Some(url) => after_trees(root, taken, job, url.as_str(), parent, dest, found),
            None => Stage::Trees { parent, dest },
        },
        (Stage::Status { from, parent, spawn }, Event::Ran(reply)) => match proc::check_env(
            &spawn,
            reply,
        ) {
            Err(why) => Stage::Tell(Err(why)),
            Ok(out) => if text::trim(out.as_str(), Class::White).as_str().unicode_len() == 0 {
                Stage::Room { parent, plan: Plan::Move(from) }
            } else {
                let mut e: String = text::cat("working tree at ", from.as_str());
                e.append(" is dirty, not moved to ");
                e.append(job.target.as_str());
                Stage::Tell(Err(e))
            },
        },
        (Stage::Room { parent, plan }, Event::Done(done)) => match (done, plan) {
            (Err(why), _) => Stage::Tell(Err(why.clone())),
            (Ok(_), Plan::Clone(Some(dest))) => match &job.url {
                Some(url) => Stage::Clone {
                    spawn: clone_metainfo(parent.as_str(), url.as_str(), dest.as_str(), &job.auth),
                },
                None => Stage::Tell(Err(String::new())),
            },
            (Ok(_), Plan::Clone(None)) => Stage::Tell(Err("bad target name".to_owned())),
            (Ok(_), Plan::Move(from)) => Stage::Rename { from },
        },
        (Stage::Rename { .. }, Event::Done(done)) => match done {
            Err(why) => Stage::Tell(Err(why.clone())),
            Ok(_) => make_head(job),
        },
        (Stage::Clone { spawn }, Event::Ran(reply)) => match proc::check_env(&spawn, reply) {
            Err(why) => Stage::Tell(Err(why)),
            Ok(_) => make_head(job),
        },
        (Stage::Head { spawn }, Event::Ran(reply)) => match proc::check_env(&spawn, reply) {
            Err(why) => Stage::Tell(Err(why)),
            Ok(out) => {
                let branch: String = text::trim(out.as_str(), Class::White);
                let spawn: Spawn = proc::git(
                    job.target.as_str(),
                    &["checkout", branch.as_str()],
                    &job.auth,
                );
                assert(spawn.deep_view().argv =~= checkout_spawn(job.deep_view(), branch@).argv);
                Stage::Checkout { spawn }
            },
        },
        (Stage::Checkout { spawn }, Event::Ran(reply)) => match proc::check_env(&spawn, reply) {
            Err(why) => Stage::Tell(Err(why)),
            Ok(_) => make_sparse(job),
        },
        (Stage::Sparse { spawn }, Event::Ran(reply)) => match proc::check_env(&spawn, reply) {
            Err(why) => Stage::Tell(Err(why)),
            Ok(_) => Stage::Tell(Ok(())),
        },
        (stage, _) => stage,
    }
}

// --- the machine ------------------------------------------------------------

/// A summon under way.
#[derive(Debug)]
pub struct Summon {
    root: String,
    taken: Vec<String>,
    jobs: Vec<Job>,
    at: usize,
    stage: Stage,
    errs: usize,
}

/// What a `Summon` stands for.
pub struct SummonModel {
    pub root: Text,
    pub taken: Seq<Text>,
    pub jobs: Seq<JobModel>,
    pub at: int,
    pub stage: StageModel,
    pub errs: nat,
}

impl DeepView for Summon {
    type V = SummonModel;

    closed spec fn deep_view(&self) -> SummonModel {
        SummonModel {
            root: self.root@,
            taken: self.taken.deep_view(),
            jobs: self.jobs.deep_view(),
            at: self.at as int,
            stage: self.stage.deep_view(),
            errs: self.errs as nat,
        }
    }
}

/// How the work on the `i`-th repo begins.
pub open spec fn begun_at(jobs: Seq<JobModel>, i: int) -> StageModel {
    if 0 <= i < jobs.len() {
        begun(jobs[i])
    } else {
        StageModel::Probe
    }
}

/// What is said of the repos that failed.
pub open spec fn summon_failed(errs: nat) -> Text {
    "summon: "@ + text::decimal(errs) + " repo(s) failed"@
}

impl SummonModel {
    /// A summon that has not begun.
    pub open spec fn fresh(root: Text, taken: Seq<Text>, jobs: Seq<JobModel>) -> SummonModel {
        SummonModel { root, taken, jobs, at: 0, stage: begun_at(jobs, 0), errs: 0 }
    }

    /// What is asked for next.
    pub open spec fn next(self) -> AskModel {
        if self.at < self.jobs.len() {
            let job = self.jobs[self.at];
            match self.stage {
                StageModel::Probe => AskModel::Probe(job.target),
                StageModel::Trees { .. } => AskModel::Trees,
                StageModel::Status { spawn, .. } => AskModel::Run(spawn),
                StageModel::Room { parent, .. } => AskModel::MakeDir(parent),
                StageModel::Rename { from } => AskModel::Rename(from, job.target),
                StageModel::Clone { spawn } => AskModel::Run(spawn),
                StageModel::Head { spawn } => AskModel::Run(spawn),
                StageModel::Checkout { spawn } => AskModel::Run(spawn),
                StageModel::Sparse { spawn } => AskModel::Run(spawn),
                StageModel::Tell(Ok(_)) => AskModel::Say("  "@ + job.name + ": ok\n"@),
                StageModel::Tell(Err(e)) => AskModel::Warn("  "@ + job.name + ": "@ + e + "\n"@),
            }
        } else if self.errs > 0 {
            AskModel::End(Err(summon_failed(self.errs)))
        } else {
            AskModel::End(Ok(Seq::empty()))
        }
    }

    /// What an event leads to.
    pub open spec fn after(self, e: EventModel) -> SummonModel {
        if self.at < self.jobs.len() {
            match (self.stage, e) {
                (StageModel::Tell(res), EventModel::Said) => SummonModel {
                    at: self.at + 1,
                    stage: begun_at(self.jobs, self.at + 1),
                    errs: if res is Err {
                        self.errs + 1
                    } else {
                        self.errs
                    },
                    ..self
                },
                _ => SummonModel {
                    stage: advanced(self.root, self.taken, self.jobs[self.at], self.stage, e),
                    ..self
                },
            }
        } else {
            self
        }
    }

    /// What a sequence of events leads to.
    pub open spec fn after_all(self, es: Seq<EventModel>) -> SummonModel
        decreases es.len(),
    {
        if es.len() == 0 {
            self
        } else {
            self.after_all(es.drop_last()).after(es.last())
        }
    }
}

impl Summon {
    #[verifier::type_invariant]
    spec fn within(self) -> bool {
        &&& self.at <= self.jobs.len()
        &&& self.errs <= self.at
        &&& self.at < self.jobs.len() ==> self.jobs@[self.at as int].url is Some || self.stage is Tell
    }

    /// What is asked for next.
    pub fn next(&self) -> (r: Ask<'_>)
        ensures
            r.deep_view() == self.deep_view().next(),
    {
        proof {
            use_type_invariant(self);
        }
        if self.at < self.jobs.len() {
            let job: &Job = &self.jobs[self.at];
            match &self.stage {
                Stage::Probe => Ask::Probe(job.target.as_str()),
                Stage::Trees { .. } => Ask::Trees,
                Stage::Status { spawn, .. } => Ask::Run(spawn),
                Stage::Room { parent, .. } => Ask::MakeDir(parent.as_str()),
                Stage::Rename { from } => Ask::Rename(from.as_str(), job.target.as_str()),
                Stage::Clone { spawn } => Ask::Run(spawn),
                Stage::Head { spawn } => Ask::Run(spawn),
                Stage::Checkout { spawn } => Ask::Run(spawn),
                Stage::Sparse { spawn } => Ask::Run(spawn),
                Stage::Tell(Ok(_)) => {
                    let mut line: String = text::cat("  ", job.name.as_str());
                    line.append(": ok\n");
                    Ask::Say(line)
                },
                Stage::Tell(Err(e)) => {
                    let mut line: String = text::cat("  ", job.name.as_str());
                    line.append(": ");
                    line.append(e.as_str());
                    line.append("\n");
                    Ask::Warn(line)
                },
            }
        } else if self.errs > 0 {
            let mut e: String = text::cat("summon: ", text::count(self.errs).as_str());
            e.append(" repo(s) failed");
            Ask::End(Err(e))
        } else {
            Ask::End(Ok(String::new()))
        }
    }

    /// Takes what came of what was asked for.
    pub fn feed(self, event: &Event) -> (r: Summon)
        ensures
            r.deep_view() == self.deep_view().after(event.deep_view()),
    {
        proof {
            use_type_invariant(&self);
        }
        let Summon { root, taken, jobs, at, stage, errs } = self;
        if at >= jobs.len() {
            return Summon { root, taken, jobs, at, stage, errs };
        }
        match (stage, event) {
            (Stage::Tell(res), Event::Said) => {
                let errs: usize = if res.is_err() {
                    errs + 1
                } else {
                    errs
                };
                let stage: Stage = if at + 1 < jobs.len() {
                    begin(&jobs[at + 1])
                } else {
                    Stage::Probe
                };
                Summon { root, taken, jobs, at: at + 1, stage, errs }
            },
            (stage, event) => {
                let stage: Stage = reconcile_one(root.as_str(), &taken, &jobs[at], stage, event);
                Summon { root, taken, jobs, at, stage, errs }
            },
        }
    }
}

// --- the verb ---------------------------------------------------------------

/// The summon of the repos `names`, or of all, or why it does not begin.
pub open spec fn summoned(root: Text, m: Map<Text, MergedRepoModel>, names: Seq<Text>) -> Result<
    SummonModel,
    Text,
> {
    match unknown(m, names) {
        Some(n) => Err("summon: unknown repo "@ + text::debug_text(n)),
        None => Ok(
            SummonModel::fresh(root, placements(root, m), jobs_of(root, m, selected(m, names))),
        ),
    }
}

proof fn lemma_unknown_stays(m: Map<Text, MergedRepoModel>, names: Seq<Text>, i: int)
    requires
        0 <= i <= names.len(),
        unknown(m, names.take(i)) is Some,
    ensures
        unknown(m, names) == unknown(m, names.take(i)),
    decreases names.len(),
{
    if i < names.len() {
        assert(names.drop_last().take(i) =~= names.take(i));
        lemma_unknown_stays(m, names.drop_last(), i);
    } else {
        assert(names.take(i) =~= names);
    }
}

fn make_placements(merged: &Merged, root: &str) -> (r: Vec<String>)
    ensures
        r.deep_view() == placements(root@, merged.deep_view()),
{
    let ghost m = merged.deep_view();
    let ghost q = keys_of(m);
    let n: usize = merged.repos.len();
    let mut out: Vec<String> = Vec::new();
    for i in 0..n
        invariant
            m == merged.deep_view(),
            q == keys_of(m),
            n == q.len(),
            out@.len() == i,
            forall|j: int|
                0 <= j < i ==> #[trigger] out.deep_view()[j] == repo_dir(root@, q[j], m[q[j]]),
    {
        let ghost done = out.deep_view();
        let dir: String = dir_of(root, merged.repos.key_at(i), merged.repos.value_at(i));
        let ghost made = dir@;
        out.push(dir);
        assert(out.deep_view() =~= done.push(made));
    }
    assert(out.deep_view() =~= placements(root@, m));
    out
}

/// The jobs of all repos, in name order.
fn all_jobs(merged: &Merged, root: &str) -> (r: Vec<Job>)
    ensures
        r.deep_view() == jobs_of(root@, merged.deep_view(), keys_of(merged.deep_view())),
{
    let ghost m = merged.deep_view();
    let ghost q = keys_of(m);
    let n: usize = merged.repos.len();
    let mut out: Vec<Job> = Vec::new();
    for i in 0..n
        invariant
            m == merged.deep_view(),
            q == keys_of(m),
            n == q.len(),
            out@.len() == i,
            forall|j: int| 0 <= j < i ==> #[trigger] out.deep_view()[j] == job_of(
                root@,
                q[j],
                m[q[j]],
            ),
    {
        let ghost done = out.deep_view();
        let job: Job = make_job(root, merged.repos.key_at(i), merged.repos.value_at(i));
        let ghost made = job.deep_view();
        out.push(job);
        assert(out.deep_view() =~= done.push(made));
    }
    assert(out.deep_view() =~= jobs_of(root@, m, q));
    out
}

/// Begins a summon of the repos that are named, or of all of them.
pub fn summon(args: &SummonArgs, merged: &Merged, root: &str) -> (r: Result<Summon, String>)
    ensures
        outcome(r) == summoned(root@, merged.deep_view(), args.repos.deep_view()),
{
    let ghost m = merged.deep_view();
    let ghost q = args.repos.deep_view();
    let mut jobs: Vec<Job> = Vec::new();
    for i in 0..args.repos.len()
        invariant
            m == merged.deep_view(),
            q == args.repos.deep_view(),
            unknown(m, q.take(i as int)) is None,
            jobs@.len() == i,
            forall|j: int| 0 <= j < i ==> #[trigger] jobs.deep_view()[j] == job_of(
                root@,
                q[j],
                m[q[j]],
            ),
    {
        let ghost done = jobs.deep_view();
        assert(q.take(i + 1).drop_last() =~= q.take(i as int));
        let name: &str = args.repos[i].as_str();
        match merged.repos.get(name) {
            Some(repo) => {
                let job: Job = make_job(root, name, repo);
                let ghost made = job.deep_view();
                jobs.push(job);
                assert(jobs.deep_view() =~= done.push(made));
            },
            None => {
                proof {
                    lemma_unknown_stays(m, q, i + 1);
                }
                return Err(text::cat("summon: unknown repo ", text::quoted(name).as_str()));
            },
        }
    }
    assert(q.take(q.len() as int) =~= q);
    if args.repos.len() == 0 {
        jobs = all_jobs(merged, root);
    }
    assert(jobs.deep_view() =~= jobs_of(root@, m, selected(m, q)));
    let taken: Vec<String> = make_placements(merged, root);
    let stage: Stage = if jobs.len() > 0 {
        begin(&jobs[0])
    } else {
        Stage::Probe
    };
    Ok(Summon { root: root.to_owned(), taken, jobs, at: 0, stage, errs: 0 })
}

// --- laws -------------------------------------------------------------------

/// The state after the first `k` events.
pub open spec fn state_at(start: SummonModel, es: Seq<EventModel>, k: int) -> SummonModel {
    start.after_all(es.take(k))
}

/// Whether git was asked about the working tree at `from`, and answered that
/// nothing in it is uncommitted.
pub open spec fn found_clean(start: SummonModel, es: Seq<EventModel>, from: Text) -> bool {
    exists|k: int|
        #![trigger state_at(start, es, k)]
        0 <= k < es.len() && es[k] is Ran && es[k]->Ran_0.answer() == Some(Seq::<char>::empty())
            && state_at(start, es, k).next() == AskModel::Run(
            status_spawn(from, start.jobs[state_at(start, es, k).at].auth),
        )
}

/// What holds of the stage of a repo, whatever events came.
spec fn sound(start: SummonModel, es: Seq<EventModel>, s: SummonModel) -> bool {
    &&& s.jobs == start.jobs
    &&& s.root == start.root
    &&& s.taken == start.taken
    &&& 0 <= s.at <= s.jobs.len()
    &&& s.at < s.jobs.len() ==> {
        let auth = s.jobs[s.at].auth;
        match s.stage {
            StageModel::Status { from, spawn, .. } => spawn == status_spawn(from, auth),
            StageModel::Room { plan, .. } => plan matches PlanModel::Move(from) ==> found_clean(
                start,
                es,
                from,
            ),
            StageModel::Rename { from } => found_clean(start, es, from),
            StageModel::Clone { spawn } => spawn.env == proc::layered(auth),
            StageModel::Head { spawn } => spawn.env == proc::layered(auth),
            StageModel::Checkout { spawn } => spawn.env == proc::layered(auth),
            StageModel::Sparse { spawn } => spawn.env == proc::layered(auth),
            _ => true,
        }
    }
}

proof fn lemma_clean_stays(start: SummonModel, es: Seq<EventModel>, from: Text)
    requires
        es.len() > 0,
        found_clean(start, es.drop_last(), from),
    ensures
        found_clean(start, es, from),
{
    let init = es.drop_last();
    let k = choose|k: int|
        #![trigger state_at(start, init, k)]
        0 <= k < init.len() && init[k] is Ran && init[k]->Ran_0.answer() == Some(
            Seq::<char>::empty(),
        ) && state_at(start, init, k).next() == AskModel::Run(
            status_spawn(from, start.jobs[state_at(start, init, k).at].auth),
        );
    assert(init.take(k) =~= es.take(k));
    assert(init[k] == es[k]);
    assert(state_at(start, es, k) == state_at(start, init, k));
}

proof fn lemma_sound(start: SummonModel, es: Seq<EventModel>)
    requires
        start == SummonModel::fresh(start.root, start.taken, start.jobs),
    ensures
        sound(start, es, start.after_all(es)),
    decreases es.len(),
{
    if es.len() > 0 {
        let init = es.drop_last();
        lemma_sound(start, init);
        let s = start.after_all(init);
        let e = es.last();
        assert(es.take(es.len() - 1) =~= init);
        assert(state_at(start, es, es.len() - 1) == s);
        assert(es[es.len() - 1] == e);
        if s.at < s.jobs.len() {
            match s.stage {
                StageModel::Status { from, parent, spawn } => {
                    if let EventModel::Ran(r) = e {
                        if let Ok(out) = checked(spawn, r) {
                            if text::trimmed(out, Class::White).len() == 0 {
                                assert(text::trimmed(out, Class::White) =~= Seq::<char>::empty());
                                assert(r.answer() == Some(Seq::<char>::empty()));
                                assert(found_clean(start, es, from));
                            }
                        }
                    }
                },
                StageModel::Room { plan, .. } => {
                    if let PlanModel::Move(from) = plan {
                        lemma_clean_stays(start, es, from);
                    }
                },
                StageModel::Rename { from } => {
                    lemma_clean_stays(start, es, from);
                },
                _ => {},
            }
        }
    }
}

/// **Uncommitted work is never relocated**: a working tree is moved only after
/// git said of that very tree that nothing in it is uncommitted.
pub proof fn law_dirty_tree_is_never_moved(
    root: Text,
    taken: Seq<Text>,
    jobs: Seq<JobModel>,
    es: Seq<EventModel>,
    from: Text,
    to: Text,
)
    requires
        SummonModel::fresh(root, taken, jobs).after_all(es).next() == AskModel::Rename(from, to),
    ensures
        found_clean(SummonModel::fresh(root, taken, jobs), es, from),
{
    lemma_sound(SummonModel::fresh(root, taken, jobs), es);
}

/// **Every git process of a repo carries the repo's auth**, and none prompts.
pub proof fn law_summon_carries_auth(
    root: Text,
    taken: Seq<Text>,
    jobs: Seq<JobModel>,
    es: Seq<EventModel>,
    spawn: SpawnModel,
)
    requires
        SummonModel::fresh(root, taken, jobs).after_all(es).next() == AskModel::Run(spawn),
    ensures
        spawn.env == proc::layered(
            jobs[SummonModel::fresh(root, taken, jobs).after_all(es).at].auth,
        ),
{
    lemma_sound(SummonModel::fresh(root, taken, jobs), es);
}

/// Whether a repo is past the point where its working tree could be created
/// or moved.
pub open spec fn in_place(stage: StageModel) -> bool {
    stage is Head || stage is Checkout || stage is Sparse || stage is Tell
}

/// **A repo that is where it should be stays there**: once the placement is
/// found to exist, nothing is created, cloned or moved for that repo; only
/// the current branch is checked out and the sparse spec applied.
pub proof fn law_existing_placement_is_left_in_place(
    root: Text,
    taken: Seq<Text>,
    job: JobModel,
    stage: StageModel,
    e: EventModel,
)
    ensures
        e is Probed && e->exists && stage is Probe ==> in_place(
            advanced(root, taken, job, stage, e),
        ),
        in_place(stage) ==> in_place(advanced(root, taken, job, stage, e)),
{
}

/// **Summoning again asks for the same again**: in a repo that is where it
/// should be, a summon that git answers well asks for the current branch,
/// checks out that very branch, applies the recorded sparse spec, and is done.
pub proof fn law_summon_of_present_repo(
    root: Text,
    taken: Seq<Text>,
    job: JobModel,
    probed: EventModel,
    branch: ReplyModel,
    checkout: ReplyModel,
    sparse: ReplyModel,
)
    requires
        probed is Probed && probed->exists,
        branch.ok(),
        checkout.ok(),
        sparse.ok(),
    ensures
        ({
            let head = advanced(root, taken, job, StageModel::Probe, probed);
            let out = advanced(root, taken, job, head, EventModel::Ran(branch));
            let cone = advanced(root, taken, job, out, EventModel::Ran(checkout));
            &&& head == (StageModel::Head { spawn: head_spawn(job) })
            &&& out == (StageModel::Checkout {
                spawn: checkout_spawn(job, branch.answer().unwrap()),
            })
            &&& cone == (StageModel::Sparse { spawn: sparse_spawn(job) })
            &&& advanced(root, taken, job, cone, EventModel::Ran(sparse)) == StageModel::Tell(
                Ok::<(), Text>(()),
            )
        }),
{
}

/// What a summon asks for before the first event, and after each.
pub open spec fn asks(start: SummonModel, es: Seq<EventModel>) -> Seq<AskModel> {
    Seq::new(es.len() + 1, |k: int| state_at(start, es, k).next())
}

/// The events of a repo whose placement is missing and whose working tree is
/// found somewhere else, where every step goes well.
pub open spec fn moving(
    parent: Option<Text>,
    file_name: Option<Text>,
    found: Seq<(Text, Text)>,
    status: ReplyModel,
    branch: ReplyModel,
    checkout: ReplyModel,
    sparse: ReplyModel,
) -> Seq<EventModel> {
    seq![
        EventModel::Probed { exists: false, parent, file_name },
        EventModel::Found(found),
        EventModel::Ran(status),
        EventModel::Done(Ok(())),
        EventModel::Done(Ok(())),
        EventModel::Ran(branch),
        EventModel::Ran(checkout),
        EventModel::Ran(sparse),
    ]
}

/// What is asked for where a working tree is moved: it is looked at, moved
/// once, and brought to its branch and its sparse spec. Nothing is cloned.
pub open spec fn move_asks(job: JobModel, from: Text, parent: Text, branch: Text) -> Seq<AskModel> {
    seq![
        AskModel::Probe(job.target),
        AskModel::Trees,
        AskModel::Run(status_spawn(from, job.auth)),
        AskModel::MakeDir(parent),
        AskModel::Rename(from, job.target),
        AskModel::Run(head_spawn(job)),
        AskModel::Run(checkout_spawn(job, branch)),
        AskModel::Run(sparse_spawn(job)),
        AskModel::Say("  "@ + job.name + ": ok\n"@),
    ]
}

/// **A clean working tree is moved to where the env wants it**: where the
/// placement of a repo is missing, exactly one working tree of its URL stands
/// where no repo is placed, git says that nothing in it is uncommitted and
/// every step goes well, the repo is done with one rename from there to the
/// placement and with no clone.
pub proof fn law_clean_tree_is_moved(
    start: SummonModel,
    parent: Option<Text>,
    file_name: Option<Text>,
    found: Seq<(Text, Text)>,
    rel: Text,
    status: ReplyModel,
    branch: ReplyModel,
    checkout: ReplyModel,
    sparse: ReplyModel,
)
    requires
        0 <= start.at < start.jobs.len(),
        start.jobs[start.at].url is Some,
        start.stage == begun(start.jobs[start.at]),
        strays(start.root, found, start.jobs[start.at].url.unwrap(), start.taken) == seq![rel],
        status.answer() == Some(Seq::<char>::empty()),
        branch.ok(),
        checkout.ok(),
        sparse.ok(),
    ensures
        asks(start, moving(parent, file_name, found, status, branch, checkout, sparse))
            == move_asks(
            start.jobs[start.at],
            joined_path(start.root, rel),
            match parent {
                Some(p) => p,
                None => start.root,
            },
            branch.answer().unwrap(),
        ),
{
    let es = moving(parent, file_name, found, status, branch, checkout, sparse);
    let job = start.jobs[start.at];
    assert(es.take(0) =~= Seq::empty());
    let s0 = state_at(start, es, 0);
    assert(s0 == start);
    let s1 = state_at(start, es, 1);
    assert(es.take(1).drop_last() =~= es.take(0) && es.take(1).last() == es[0]);
    assert(s1 == s0.after(es[0]));
    let s2 = state_at(start, es, 2);
    assert(es.take(2).drop_last() =~= es.take(1) && es.take(2).last() == es[1]);
    assert(s2 == s1.after(es[1]));
    let s3 = state_at(start, es, 3);
    assert(es.take(3).drop_last() =~= es.take(2) && es.take(3).last() == es[2]);
    assert(s3 == s2.after(es[2]));
    let s4 = state_at(start, es, 4);
    assert(es.take(4).drop_last() =~= es.take(3) && es.take(4).last() == es[3]);
    assert(s4 == s3.after(es[3]));
    let s5 = state_at(start, es, 5);
    assert(es.take(5).drop_last() =~= es.take(4) && es.take(5).last() == es[4]);
    assert(s5 == s4.after(es[4]));
    let s6 = state_at(start, es, 6);
    assert(es.take(6).drop_last() =~= es.take(5) && es.take(6).last() == es[5]);
    assert(s6 == s5.after(es[5]));
    let s7 = state_at(start, es, 7);
    assert(es.take(7).drop_last() =~= es.take(6) && es.take(7).last() == es[6]);
    assert(s7 == s6.after(es[6]));
    let s8 = state_at(start, es, 8);
    assert(es.take(8).drop_last() =~= es.take(7) && es.take(8).last() == es[7]);
    assert(s8 == s7.after(es[7]));
    assert(asks(start, es) =~= move_asks(
        job,
        joined_path(start.root, rel),
        match parent {
            Some(p) => p,
            None => start.root,
        },
        branch.answer().unwrap(),
    ));
}

/// **A dirty working tree is refused by name**: where git names uncommitted
/// work in the one working tree that could be moved, the repo is reported as
/// failed, and nothing is moved or cloned for it.
pub proof fn law_dirty_tree_is_refused(
    root: Text,
    taken: Seq<Text>,
    job: JobModel,
    parent: Text,
    dest: Option<Text>,
    found: Seq<(Text, Text)>,
    rel: Text,
    status: ReplyModel,
)
    requires
        job.url is Some,
        strays(root, found, job.url.unwrap(), taken) == seq![rel],
        status.ok(),
        status.answer() != Some(Seq::<char>::empty()),
    ensures
        advanced(
            root,
            taken,
            job,
            advanced(
                root,
                taken,
                job,
                StageModel::Trees { parent, dest },
                EventModel::Found(found),
            ),
            EventModel::Ran(status),
        ) == StageModel::Tell(Err::<(), Text>(dirty(joined_path(root, rel), job.target))),
{
    let out = status->Ran_0.stdout;
    if text::trimmed(out, Class::White).len() == 0 {
        assert(text::trimmed(out, Class::White) =~= Seq::empty());
    }
}

/// **`env set <repo>.at` and a summon move the working tree**: once a new
/// placement is written for a repo whose working tree stands, clean, where no
/// repo is placed any more, a summon of that repo asks for one rename from
/// there to the new placement and for no clone.
pub proof fn law_new_placement_moves_the_tree(
    root: Text,
    s: Map<Text, SharedRepoModel>,
    p: Map<Text, PrivateRepoModel>,
    home: Option<Text>,
    name: Text,
    at: Text,
    parent: Option<Text>,
    file_name: Option<Text>,
    found: Seq<(Text, Text)>,
    rel: Text,
    status: ReplyModel,
    branch: ReplyModel,
    checkout: ReplyModel,
    sparse: ReplyModel,
)
    requires
        s.contains_key(name),
        s[name].url is Some,
        p.contains_key(name) ==> p[name].at is None,
        strays(
            root,
            found,
            s[name].url.unwrap(),
            placements(root, merged(change_repo(s, SharedKeyModel::At(name), Some(at)), p, home)),
        ) == seq![rel],
        status.answer() == Some(Seq::<char>::empty()),
        branch.ok(),
        checkout.ok(),
        sparse.ok(),
    ensures
        ({
            let m = merged(change_repo(s, SharedKeyModel::At(name), Some(at)), p, home);
            let job = job_of(root, name, m[name]);
            &&& job.target == joined_path(root, at)
            &&& summoned(root, m, seq![name]) is Ok
            &&& asks(
                summoned(root, m, seq![name])->Ok_0,
                moving(parent, file_name, found, status, branch, checkout, sparse),
            ) == move_asks(
                job,
                joined_path(root, rel),
                match parent {
                    Some(p) => p,
                    None => root,
                },
                branch.answer().unwrap(),
            )
        }),
{
    let m = merged(change_repo(s, SharedKeyModel::At(name), Some(at)), p, home);
    let names = seq![name];
    assert(names.drop_last() =~= Seq::empty());
    assert(unknown(m, names.drop_last()) is None);
    assert(unknown(m, names) is None);
    let start = summoned(root, m, names)->Ok_0;
    assert(start.jobs[0] == job_of(root, name, m[name]));
    law_clean_tree_is_moved(
        start,
        parent,
        file_name,
        found,
        rel,
        status,
        branch,
        checkout,
        sparse,
    );
}

/// **Reconciliation depends on the env alone**: whichever repos an invocation
/// selects, what is done for a repo is the same. A sparse spec that was written
/// once holds for every later summon.
pub proof fn law_job_depends_on_env_alone(
    root: Text,
    m: Map<Text, MergedRepoModel>,
    a: Seq<Text>,
    b: Seq<Text>,
    i: int,
    j: int,
)
    requires
        0 <= i < selected(m, a).len(),
        0 <= j < selected(m, b).len(),
        selected(m, a)[i] == selected(m, b)[j],
    ensures
        jobs_of(root, m, selected(m, a))[i] == jobs_of(root, m, selected(m, b))[j],
{
}

/// Whether a repo was reported as failed on the way.
pub open spec fn warned(start: SummonModel, es: Seq<EventModel>) -> bool {
    exists|k: int|
        0 <= k < es.len() && es[k] is Said && (#[trigger] state_at(start, es, k)).next() is Warn
}

proof fn lemma_warned(start: SummonModel, es: Seq<EventModel>)
    requires
        start == SummonModel::fresh(start.root, start.taken, start.jobs),
    ensures
        start.after_all(es).errs > 0 <==> warned(start, es),
    decreases es.len(),
{
    if es.len() > 0 {
        let init = es.drop_last();
        lemma_warned(start, init);
        lemma_sound(start, init);
        let s = start.after_all(init);
        assert(es.take(es.len() - 1) =~= init);
        assert(state_at(start, es, es.len() - 1) == s);
        assert(es[es.len() - 1] == es.last());
        if warned(start, init) {
            let k = choose|k: int|
                0 <= k < init.len() && init[k] is Said && (#[trigger] state_at(
                    start,
                    init,
                    k,
                )).next() is Warn;
            assert(init.take(k) =~= es.take(k));
            assert(state_at(start, es, k) == state_at(start, init, k));
            assert(es[k] == init[k]);
        }
        if warned(start, es) && start.after_all(es).errs == 0 {
            let k = choose|k: int|
                0 <= k < es.len() && es[k] is Said && (#[trigger] state_at(
                    start,
                    es,
                    k,
                )).next() is Warn;
            if k < init.len() {
                assert(init.take(k) =~= es.take(k));
                assert(state_at(start, init, k) == state_at(start, es, k));
                assert(es[k] == init[k]);
            }
        }
    }
}

/// **A summon succeeds if and only if no repo failed**: it ends well exactly
/// where no repo was reported as failed.
pub proof fn law_summon_succeeds_iff_no_repo_failed(
    root: Text,
    taken: Seq<Text>,
    jobs: Seq<JobModel>,
    es: Seq<EventModel>,
)
    requires
        SummonModel::fresh(root, taken, jobs).after_all(es).next() is End,
    ensures
        SummonModel::fresh(root, taken, jobs).after_all(es).next() == AskModel::End(
            Ok::<Text, Text>(Seq::empty()),
        ) <==> !warned(SummonModel::fresh(root, taken, jobs), es),
{
    lemma_warned(SummonModel::fresh(root, taken, jobs), es);
    lemma_sound(SummonModel::fresh(root, taken, jobs), es);
}

/// Whether the work on the `i`-th repo began on the way.
pub open spec fn attempted(start: SummonModel, es: Seq<EventModel>, i: int) -> bool {
    exists|k: int|
        0 <= k <= es.len() && (#[trigger] state_at(start, es, k)).at == i && state_at(
            start,
            es,
            k,
        ).stage == begun(start.jobs[i])
}

proof fn lemma_attempted(start: SummonModel, es: Seq<EventModel>, i: int)
    requires
        start == SummonModel::fresh(start.root, start.taken, start.jobs),
        0 <= i < start.jobs.len(),
        start.after_all(es).at >= i,
    ensures
        attempted(start, es, i),
    decreases es.len(),
{
    lemma_sound(start, es);
    if es.len() == 0 {
        assert(es.take(0) =~= es);
        assert(state_at(start, es, 0) == start);
    } else {
        let init = es.drop_last();
        lemma_sound(start, init);
        if start.after_all(init).at >= i {
            lemma_attempted(start, init, i);
            let k = choose|k: int|
                0 <= k <= init.len() && (#[trigger] state_at(start, init, k)).at == i && state_at(
                    start,
                    init,
                    k,
                ).stage == begun(start.jobs[i]);
            assert(init.take(k) =~= es.take(k));
            assert(state_at(start, es, k) == state_at(start, init, k));
        } else {
            assert(es.take(es.len() as int) =~= es);
            assert(state_at(start, es, es.len() as int) == start.after_all(es));
        }
    }
}

/// **Every selected repo is attempted**: by the time a summon has come to its
/// end, the work on each repo has begun, whatever became of the others.
pub proof fn law_every_selected_repo_is_attempted(
    root: Text,
    taken: Seq<Text>,
    jobs: Seq<JobModel>,
    es: Seq<EventModel>,
    i: int,
)
    requires
        SummonModel::fresh(root, taken, jobs).after_all(es).next() is End,
        0 <= i < jobs.len(),
    ensures
        attempted(SummonModel::fresh(root, taken, jobs), es, i),
{
    lemma_sound(SummonModel::fresh(root, taken, jobs), es);
    lemma_attempted(SummonModel::fresh(root, taken, jobs), es, i);
}

/// **`--paths` is an `env set`**: what it writes is the sparse spec of the one
/// repo that is named, and reads back as the paths that were given.
pub proof fn law_paths_are_recorded(
    m: Map<Text, SharedRepoModel>,
    repo: Text,
    paths: Seq<Text>,
)
    requires
        valid_name(repo),
        paths.len() > 0,
        plain_paths(paths),
    ensures
        match sparse_write(seq![repo], paths) {
            Ok(Some((key, v))) => {
                &&& key == SharedKeyModel::Paths(repo)
                &&& change_repo(m, key, Some(v)).contains_key(repo)
                &&& change_repo(m, key, Some(v))[repo].paths == paths
            },
            _ => false,
        },
{
    reveal_strlit(",");
    assert(","@ =~= seq![',']);
    law_paths_round_trip(text::joined(paths, ","@), paths);
}

} // verus!
