//! `sync`: converge every repo to a named ref.
//!
//! A branchtype that some repo does not map is refused, with the exact list of
//! those repos, before any process is spawned. There is no silent fallback to
//! default branches. Otherwise every repo is attempted, whatever becomes of
//! the others.
//!
//! A branch is only ever fast-forwarded. Where it holds commits that its
//! upstream lacks and cannot be fast-forwarded, git refuses, the repo is
//! reported as failed, and the branch stays as it is.

use crate::cli::SyncArgs;
use crate::proc::{self, checked, spawn_of, Spawn, SpawnModel};
use crate::store::{join_path, joined_path};
use crate::text::{self, outcome, Class, Text};
use crate::textmap::keys_of;
use crate::verbs::merged::{placed, Merged, MergedRepo, MergedRepoModel};
use crate::verbs::status::{missing_names, repos_missing};
use crate::verbs::work::{Ask, AskModel, Event, EventModel};
use vstd::prelude::*;

verus! {

// --- refs -------------------------------------------------------------------

/// What the argument of `sync` names.
#[derive(Debug)]
pub enum RefKind {
    /// A tag.
    Tag(String),
    /// The same branch in every repo.
    ExplicitBranch(String),
    /// A branchtype, which each repo maps to a branch of its own.
    Branchtype(String),
}

/// What a `RefKind` stands for.
pub enum RefKindModel {
    Tag(Text),
    ExplicitBranch(Text),
    Branchtype(Text),
}

impl DeepView for RefKind {
    type V = RefKindModel;

    open spec fn deep_view(&self) -> RefKindModel {
        match self {
            RefKind::Tag(t) => RefKindModel::Tag(t@),
            RefKind::ExplicitBranch(b) => RefKindModel::ExplicitBranch(b@),
            RefKind::Branchtype(b) => RefKindModel::Branchtype(b@),
        }
    }
}

/// What a ref names: `refs/tags/` and `refs/heads/` disambiguate.
pub open spec fn ref_kind(s: Text) -> RefKindModel {
    match text::after_prefix(s, "refs/tags/"@) {
        Some(rest) => RefKindModel::Tag(rest),
        None => match text::after_prefix(s, "refs/heads/"@) {
            Some(rest) => RefKindModel::ExplicitBranch(rest),
            None => RefKindModel::Branchtype(s),
        },
    }
}

/// Tells what a ref names.
pub fn classify_ref(s: &str) -> (r: RefKind)
    ensures
        r.deep_view() == ref_kind(s@),
{
    if let Some(rest) = text::strip_prefix(s, "refs/tags/") {
        return RefKind::Tag(rest);
    }
    if let Some(rest) = text::strip_prefix(s, "refs/heads/") {
        return RefKind::ExplicitBranch(rest);
    }
    RefKind::Branchtype(s.to_owned())
}

// --- jobs -------------------------------------------------------------------

/// What there is to do on a branch: find out whether the repo has it, create it
/// from its upstream where it does not, and fast-forward it.
#[derive(Debug)]
pub struct Branching {
    pub known: Spawn,
    pub create: Spawn,
    pub forward: Spawn,
}

/// What a `Branching` stands for.
#[verifier::ext_equal]
pub struct BranchingModel {
    pub known: SpawnModel,
    pub create: SpawnModel,
    pub forward: SpawnModel,
}

impl DeepView for Branching {
    type V = BranchingModel;

    open spec fn deep_view(&self) -> BranchingModel {
        BranchingModel {
            known: self.known.deep_view(),
            create: self.create.deep_view(),
            forward: self.forward.deep_view(),
        }
    }
}

/// What there is to do in one repo: a fetch and a checkout, and what a branch
/// asks for besides.
#[derive(Debug)]
pub struct Job {
    /// The repo.
    pub name: String,
    /// What is shown of the ref that it goes to.
    pub shown: String,
    pub fetch: Spawn,
    pub checkout: Spawn,
    pub branching: Option<Branching>,
}

/// What a `Job` stands for.
#[verifier::ext_equal]
pub struct JobModel {
    pub name: Text,
    pub shown: Text,
    pub fetch: SpawnModel,
    pub checkout: SpawnModel,
    pub branching: Option<BranchingModel>,
}

impl DeepView for Job {
    type V = JobModel;

    open spec fn deep_view(&self) -> JobModel {
        JobModel {
            name: self.name@,
            shown: self.shown@,
            fetch: self.fetch.deep_view(),
            checkout: self.checkout.deep_view(),
            branching: self.branching.deep_view(),
        }
    }
}

/// Where a repo stands.
pub open spec fn repo_dir(root: Text, name: Text, r: MergedRepoModel) -> Text {
    joined_path(root, placed(r, name))
}

/// Where a repo stands.
pub fn dir_of(root: &str, name: &str, r: &MergedRepo) -> (d: String)
    ensures
        d@ == repo_dir(root@, name@, r.deep_view()),
{
    join_path(root, r.placement(name).as_str())
}

/// The job that moves a repo to a tag.
pub open spec fn tag_job(root: Text, name: Text, r: MergedRepoModel, tag: Text) -> JobModel {
    JobModel {
        name,
        shown: tag,
        fetch: spawn_of(
            repo_dir(root, name, r),
            seq!["git"@, "fetch"@, "--tags"@, "origin"@],
            r.auth_env,
        ),
        checkout: spawn_of(
            repo_dir(root, name, r),
            seq!["git"@, "checkout"@, "refs/tags/"@ + tag],
            r.auth_env,
        ),
        branching: None,
    }
}

/// The job that moves a repo to a branch, and the branch to its upstream. A
/// branch that the repo has is checked out; one that it lacks is created where
/// its upstream stands. So the name never stands for a tag or a path.
pub open spec fn branch_job(root: Text, name: Text, r: MergedRepoModel, branch: Text) -> JobModel {
    JobModel {
        name,
        shown: branch,
        fetch: spawn_of(
            repo_dir(root, name, r),
            seq!["git"@, "fetch"@, "origin"@, branch],
            r.auth_env,
        ),
        checkout: spawn_of(
            repo_dir(root, name, r),
            seq!["git"@, "checkout"@, branch],
            r.auth_env,
        ),
        branching: Some(
            BranchingModel {
                known: spawn_of(
                    repo_dir(root, name, r),
                    seq!["git"@, "branch"@, "--list"@, "--"@, branch],
                    r.auth_env,
                ),
                create: spawn_of(
                    repo_dir(root, name, r),
                    seq!["git"@, "checkout"@, "-b"@, branch, "origin/"@ + branch],
                    r.auth_env,
                ),
                forward: spawn_of(
                    repo_dir(root, name, r),
                    seq!["git"@, "merge"@, "--ff-only"@, "origin/"@ + branch],
                    r.auth_env,
                ),
            },
        ),
    }
}

/// The job that moves a repo to what `kind` names.
pub open spec fn job_of(root: Text, name: Text, r: MergedRepoModel, kind: RefKindModel) -> JobModel {
    match kind {
        RefKindModel::Tag(t) => tag_job(root, name, r, t),
        RefKindModel::ExplicitBranch(b) => branch_job(root, name, r, b),
        RefKindModel::Branchtype(bt) => branch_job(root, name, r, r.branchtypes[bt]),
    }
}

/// The jobs of the repos `ks`, in order.
pub open spec fn jobs_of(
    root: Text,
    m: Map<Text, MergedRepoModel>,
    ks: Seq<Text>,
    kind: RefKindModel,
) -> Seq<JobModel> {
    Seq::new(ks.len(), |i: int| job_of(root, ks[i], m[ks[i]], kind))
}

fn make_tag_job(root: &str, name: &str, r: &MergedRepo, tag: &str) -> (j: Job)
    ensures
        j.deep_view() == tag_job(root@, name@, r.deep_view(), tag@),
{
    let dir: String = dir_of(root, name, r);
    let tag_ref: String = text::cat("refs/tags/", tag);
    let fetch: Spawn = proc::git(dir.as_str(), &["fetch", "--tags", "origin"], &r.auth_env);
    let checkout: Spawn = proc::git(dir.as_str(), &["checkout", tag_ref.as_str()], &r.auth_env);
    let j = Job { name: name.to_owned(), shown: tag.to_owned(), fetch, checkout, branching: None };
    proof {
        let m = tag_job(root@, name@, r.deep_view(), tag@);
        assert(j.fetch.deep_view().argv =~= m.fetch.argv);
        assert(j.checkout.deep_view().argv =~= m.checkout.argv);
    }
    j
}

fn make_branch_job(root: &str, name: &str, r: &MergedRepo, branch: &str) -> (j: Job)
    ensures
        j.deep_view() == branch_job(root@, name@, r.deep_view(), branch@),
{
    let dir: String = dir_of(root, name, r);
    let remote: String = text::cat("origin/", branch);
    let fetch: Spawn = proc::git(dir.as_str(), &["fetch", "origin", branch], &r.auth_env);
    let checkout: Spawn = proc::git(dir.as_str(), &["checkout", branch], &r.auth_env);
    let branching = Branching {
        known: proc::git(dir.as_str(), &["branch", "--list", "--", branch], &r.auth_env),
        create: proc::git(
            dir.as_str(),
            &["checkout", "-b", branch, remote.as_str()],
            &r.auth_env,
        ),
        forward: proc::git(dir.as_str(), &["merge", "--ff-only", remote.as_str()], &r.auth_env),
    };
    proof {
        let b = branch_job(root@, name@, r.deep_view(), branch@).branching->0;
        assert(branching.known.deep_view().argv =~= b.known.argv);
        assert(branching.create.deep_view().argv =~= b.create.argv);
        assert(branching.forward.deep_view().argv =~= b.forward.argv);
        assert(branching.deep_view() =~= b);
    }
    let j = Job {
        name: name.to_owned(),
        shown: branch.to_owned(),
        fetch,
        checkout,
        branching: Some(branching),
    };
    proof {
        let m = branch_job(root@, name@, r.deep_view(), branch@);
        assert(j.fetch.deep_view().argv =~= m.fetch.argv);
        assert(j.checkout.deep_view().argv =~= m.checkout.argv);
    }
    j
}

/// The jobs of all repos, in name order.
fn make_jobs(merged: &Merged, root: &str, kind: &RefKind) -> (r: Vec<Job>)
    requires
        kind matches RefKind::Branchtype(bt) ==> missing_names(
            merged.deep_view(),
            keys_of(merged.deep_view()),
            bt@,
        ).len() == 0,
    ensures
        r.deep_view() == jobs_of(
            root@,
            merged.deep_view(),
            keys_of(merged.deep_view()),
            kind.deep_view(),
        ),
{
    let ghost m = merged.deep_view();
    let ghost q = keys_of(m);
    let ghost k = kind.deep_view();
    let n: usize = merged.repos.len();
    let mut out: Vec<Job> = Vec::new();
    assert(out.deep_view() =~= jobs_of(root@, m, q.take(0), k));
    for i in 0..n
        invariant
            m == merged.deep_view(),
            q == keys_of(m),
            k == kind.deep_view(),
            n == q.len(),
            kind matches RefKind::Branchtype(bt) ==> missing_names(m, q, bt@).len() == 0,
            out.deep_view() == jobs_of(root@, m, q.take(i as int), k),
    {
        let ghost done = out.deep_view();
        let name: &str = merged.repos.key_at(i);
        let repo: &MergedRepo = merged.repos.value_at(i);
        let job: Job = match kind {
            RefKind::Tag(t) => make_tag_job(root, name, repo, t.as_str()),
            RefKind::ExplicitBranch(b) => make_branch_job(root, name, repo, b.as_str()),
            RefKind::Branchtype(bt) => {
                proof {
                    lemma_missing(m, q, bt@, i as int);
                }
                match repo.branchtypes.get(bt.as_str()) {
                    Some(b) => make_branch_job(root, name, repo, b.as_str()),
                    None => {
                        assert(false);
                        make_branch_job(root, name, repo, bt.as_str())
                    },
                }
            },
        };
        let ghost made = job.deep_view();
        out.push(job);
        assert(out.deep_view() =~= done.push(made));
        assert(jobs_of(root@, m, q.take(i + 1), k) =~= jobs_of(root@, m, q.take(i as int), k).push(
            made,
        ));
    }
    assert(q.take(n as int) =~= q);
    out
}

// --- the machine ------------------------------------------------------------

#[derive(Debug)]
enum Stage {
    Fetch,
    Known,
    Checkout,
    Create,
    Forward,
    Tell(Result<(), String>),
}

/// How far the current repo has come.
pub enum StageModel {
    Fetch,
    Known,
    Checkout,
    Create,
    Forward,
    Tell(Result<(), Text>),
}

/// A sync under way.
#[derive(Debug)]
pub struct Sync {
    jobs: Vec<Job>,
    at: usize,
    stage: Stage,
    errs: usize,
    closing: String,
}

/// What a `Sync` stands for.
pub struct SyncModel {
    pub jobs: Seq<JobModel>,
    pub at: int,
    pub stage: StageModel,
    pub errs: nat,
    pub closing: Text,
}

impl DeepView for Stage {
    type V = StageModel;

    closed spec fn deep_view(&self) -> StageModel {
        match self {
            Stage::Fetch => StageModel::Fetch,
            Stage::Known => StageModel::Known,
            Stage::Checkout => StageModel::Checkout,
            Stage::Create => StageModel::Create,
            Stage::Forward => StageModel::Forward,
            Stage::Tell(r) => StageModel::Tell(outcome(*r)),
        }
    }
}

impl DeepView for Sync {
    type V = SyncModel;

    closed spec fn deep_view(&self) -> SyncModel {
        SyncModel {
            jobs: self.jobs.deep_view(),
            at: self.at as int,
            stage: self.stage.deep_view(),
            errs: self.errs as nat,
            closing: self.closing@,
        }
    }
}

/// What is said of the repos that failed.
pub open spec fn sync_failed(errs: nat) -> Text {
    "sync: "@ + text::decimal(errs) + " repo(s) failed"@
}

impl SyncModel {
    /// A sync that has not begun.
    pub open spec fn fresh(jobs: Seq<JobModel>, closing: Text) -> SyncModel {
        SyncModel { jobs, at: 0, stage: StageModel::Fetch, errs: 0, closing }
    }

    /// The same sync at another stage of its current repo.
    pub open spec fn at_stage(self, stage: StageModel) -> SyncModel {
        SyncModel { stage, ..self }
    }

    /// What is asked for next.
    pub open spec fn next(self) -> AskModel {
        if self.at < self.jobs.len() {
            let job = self.jobs[self.at];
            match self.stage {
                StageModel::Fetch => AskModel::Run(job.fetch),
                StageModel::Known => AskModel::Run(job.branching.unwrap().known),
                StageModel::Checkout => AskModel::Run(job.checkout),
                StageModel::Create => AskModel::Run(job.branching.unwrap().create),
                StageModel::Forward => AskModel::Run(job.branching.unwrap().forward),
                StageModel::Tell(Ok(_)) => AskModel::Say(
                    "  "@ + job.name + ": "@ + job.shown + "\n"@,
                ),
                StageModel::Tell(Err(e)) => AskModel::Warn("  "@ + job.name + ": "@ + e + "\n"@),
            }
        } else if self.errs > 0 {
            AskModel::End(Err(sync_failed(self.errs)))
        } else {
            AskModel::End(Ok(self.closing))
        }
    }

    /// What an event leads to.
    pub open spec fn after(self, e: EventModel) -> SyncModel {
        if self.at < self.jobs.len() {
            let job = self.jobs[self.at];
            match (self.stage, e) {
                (StageModel::Fetch, EventModel::Ran(r)) => self.at_stage(
                    match (checked(job.fetch, r), job.branching) {
                        (Ok(_), Some(_)) => StageModel::Known,
                        (Ok(_), None) => StageModel::Checkout,
                        (Err(why), _) => StageModel::Tell(Err(why)),
                    },
                ),
                (StageModel::Known, EventModel::Ran(r)) => self.at_stage(
                    match checked(job.branching.unwrap().known, r) {
                        Ok(out) => if text::trimmed(out, Class::White).len() > 0 {
                            StageModel::Checkout
                        } else {
                            StageModel::Create
                        },
                        Err(why) => StageModel::Tell(Err(why)),
                    },
                ),
                (StageModel::Checkout, EventModel::Ran(r)) => self.at_stage(
                    match (checked(job.checkout, r), job.branching) {
                        (Ok(_), Some(_)) => StageModel::Forward,
                        (Ok(_), None) => StageModel::Tell(Ok(())),
                        (Err(why), _) => StageModel::Tell(Err(why)),
                    },
                ),
                (StageModel::Create, EventModel::Ran(r)) => self.at_stage(
                    match checked(job.branching.unwrap().create, r) {
                        Ok(_) => StageModel::Forward,
                        Err(why) => StageModel::Tell(Err(why)),
                    },
                ),
                (StageModel::Forward, EventModel::Ran(r)) => self.at_stage(
                    match checked(job.branching.unwrap().forward, r) {
                        Ok(_) => StageModel::Tell(Ok(())),
                        Err(why) => StageModel::Tell(Err(why)),
                    },
                ),
                (StageModel::Tell(res), EventModel::Said) => SyncModel {
                    at: self.at + 1,
                    stage: StageModel::Fetch,
                    errs: if res is Err {
                        self.errs + 1
                    } else {
                        self.errs
                    },
                    ..self
                },
                _ => self,
            }
        } else {
            self
        }
    }

    /// What a sequence of events leads to.
    pub open spec fn after_all(self, es: Seq<EventModel>) -> SyncModel
        decreases es.len(),
    {
        if es.len() == 0 {
            self
        } else {
            self.after_all(es.drop_last()).after(es.last())
        }
    }

    /// Whether each event answers what was asked.
    pub open spec fn answers(self, es: Seq<EventModel>) -> bool
        decreases es.len(),
    {
        es.len() == 0 || (self.answers(es.drop_last()) && self.after_all(
            es.drop_last(),
        ).next().answered_by(es.last()))
    }
}

impl Sync {
    #[verifier::type_invariant]
    spec fn within(self) -> bool {
        &&& self.at <= self.jobs.len()
        &&& self.errs <= self.at
        &&& self.stage is Known || self.stage is Create || self.stage is Forward ==> self.at
            < self.jobs.len() && self.jobs@[self.at as int].branching is Some
    }

    /// What is asked for next.
    pub fn next(&self) -> (r: Ask<'_>)
        ensures
            r.deep_view() == self.deep_view().next(),
    {
        proof {
            use_type_invariant(self);
        }
        if self.at < self.jobs.len() {
            let job: &Job = &self.jobs[self.at];
            match &self.stage {
                Stage::Fetch => Ask::Run(&job.fetch),
                Stage::Checkout => Ask::Run(&job.checkout),
                Stage::Known => Ask::Run(&job.branching.as_ref().unwrap().known),
                Stage::Create => Ask::Run(&job.branching.as_ref().unwrap().create),
                Stage::Forward => Ask::Run(&job.branching.as_ref().unwrap().forward),
                Stage::Tell(Ok(_)) => {
                    let mut line: String = text::cat("  ", job.name.as_str());
                    line.append(": ");
                    line.append(job.shown.as_str());
                    line.append("\n");
                    Ask::Say(line)
                },
                Stage::Tell(Err(e)) => {
                    let mut line: String = text::cat("  ", job.name.as_str());
                    line.append(": ");
                    line.append(e.as_str());
                    line.append("\n");
                    Ask::Warn(line)
                },
            }
        } else if self.errs > 0 {
            let mut e: String = text::cat("sync: ", text::count(self.errs).as_str());
            e.append(" repo(s) failed");
            Ask::End(Err(e))
        } else {
            Ask::End(Ok(self.closing.clone()))
        }
    }

    /// Takes what came of what was asked for.
    pub fn feed(self, event: &Event) -> (r: Sync)
        ensures
            r.deep_view() == self.deep_view().after(event.deep_view()),
    {
        proof {
            use_type_invariant(&self);
        }
        let Sync { jobs, at, stage, errs, closing } = self;
        if at >= jobs.len() {
            return Sync { jobs, at, stage, errs, closing };
        }
        match (stage, event) {
            (Stage::Fetch, Event::Ran(reply)) => {
                let stage: Stage = match proc::check_env(&jobs[at].fetch, reply) {
                    Ok(_) => if jobs[at].branching.is_some() {
                        Stage::Known
                    } else {
                        Stage::Checkout
                    },
                    Err(why) => Stage::Tell(Err(why)),
                };
                Sync { jobs, at, stage, errs, closing }
            },
            (Stage::Known, Event::Ran(reply)) => {
                let b: &Branching = jobs[at].branching.as_ref().unwrap();
                let stage: Stage = match proc::check_env(&b.known, reply) {
                    Ok(out) => if text::trim(out.as_str(), Class::White).as_str().unicode_len()
                        > 0 {
                        Stage::Checkout
                    } else {
                        Stage::Create
                    },
                    Err(why) => Stage::Tell(Err(why)),
                };
                Sync { jobs, at, stage, errs, closing }
            },
            (Stage::Checkout, Event::Ran(reply)) => {
                let stage: Stage = match proc::check_env(&jobs[at].checkout, reply) {
                    Ok(_) => if jobs[at].branching.is_some() {
                        Stage::Forward
                    } else {
                        Stage::Tell(Ok(()))
                    },
                    Err(why) => Stage::Tell(Err(why)),
                };
                Sync { jobs, at, stage, errs, closing }
            },
            (Stage::Create, Event::Ran(reply)) => {
                let b: &Branching = jobs[at].branching.as_ref().unwrap();
                let stage: Stage = match proc::check_env(&b.create, reply) {
                    Ok(_) => Stage::Forward,
                    Err(why) => Stage::Tell(Err(why)),
                };
                Sync { jobs, at, stage, errs, closing }
            },
            (Stage::Forward, Event::Ran(reply)) => {
                let b: &Branching = jobs[at].branching.as_ref().unwrap();
                let stage: Stage = match proc::check_env(&b.forward, reply) {
                    Ok(_) => Stage::Tell(Ok(())),
                    Err(why) => Stage::Tell(Err(why)),
                };
                Sync { jobs, at, stage, errs, closing }
            },
            (Stage::Tell(res), Event::Said) => {
                let errs: usize = if res.is_err() {
                    errs + 1
                } else {
                    errs
                };
                Sync { jobs, at: at + 1, stage: Stage::Fetch, errs, closing }
            },
            (stage, _) => Sync { jobs, at, stage, errs, closing },
        }
    }
}

// --- the verb ---------------------------------------------------------------

/// Why a sync did not begin.
#[derive(Debug)]
pub struct Refusal {
    /// What is written to standard error first.
    pub listing: String,
    /// The error.
    pub why: String,
}

/// What a `Refusal` stands for.
pub struct RefusalModel {
    pub listing: Text,
    pub why: Text,
}

impl DeepView for Refusal {
    type V = RefusalModel;

    open spec fn deep_view(&self) -> RefusalModel {
        RefusalModel { listing: self.listing@, why: self.why@ }
    }
}

/// The line that says how to give a repo the mapping that it lacks.
pub open spec fn suggestion(name: Text, bt: Text) -> Text {
    "  "@ + name + "  (suggest: xen env set "@ + name + ".branchtypes."@ + bt + "=<branch>)\n"@
}

/// The suggestions for the repos `names`.
pub open spec fn suggestions(names: Seq<Text>, bt: Text) -> Text
    decreases names.len(),
{
    if names.len() == 0 {
        Seq::empty()
    } else {
        suggestions(names.drop_last(), bt) + suggestion(names.last(), bt)
    }
}

/// How many repos have no mapping, as a subject.
pub open spec fn repos_have(n: nat) -> Text {
    if n == 1 {
        "1 repo(s) have"@
    } else {
        text::decimal(n) + " repos have"@
    }
}

/// The refusal of a branchtype that the repos `names` do not map.
pub open spec fn unmapped(names: Seq<Text>, bt: Text) -> RefusalModel {
    RefusalModel {
        listing: "fail: "@ + repos_have(names.len()) + " no mapping for branchtype "@
            + text::debug_text(bt) + ":\n"@ + suggestions(names, bt),
        why: "sync: missing branchtype mappings"@,
    }
}

/// The line that closes a sync of `n` repos in which nothing failed.
pub open spec fn synced(n: nat, kind: RefKindModel) -> Text {
    match kind {
        RefKindModel::Tag(t) => "ok: "@ + text::decimal(n) + " repos synced to "@ + t + "\n"@,
        RefKindModel::ExplicitBranch(_) => Seq::empty(),
        RefKindModel::Branchtype(bt) => "ok: "@ + text::decimal(n) + " repos synced to "@ + bt
            + "\n"@,
    }
}

/// The sync of all repos to what `kind` names, or why it does not begin.
pub open spec fn sync_to(root: Text, m: Map<Text, MergedRepoModel>, kind: RefKindModel) -> Result<
    SyncModel,
    RefusalModel,
> {
    let ks = keys_of(m);
    if ks.len() == 0 {
        Err(RefusalModel { listing: Seq::empty(), why: "sync: no repos registered"@ })
    } else if kind is Branchtype && missing_names(m, ks, kind->Branchtype_0).len() > 0 {
        Err(unmapped(missing_names(m, ks, kind->Branchtype_0), kind->Branchtype_0))
    } else {
        Ok(SyncModel::fresh(jobs_of(root, m, ks, kind), synced(ks.len(), kind)))
    }
}

fn refuse(names: &Vec<String>, bt: &str) -> (r: Refusal)
    ensures
        r.deep_view() == unmapped(names.deep_view(), bt@),
{
    let ghost q = names.deep_view();
    let mut listing: String = if names.len() == 1 {
        "fail: 1 repo(s) have".to_owned()
    } else {
        let mut s: String = text::cat("fail: ", text::count(names.len()).as_str());
        s.append(" repos have");
        s
    };
    proof {
        reveal_strlit("fail: 1 repo(s) have");
        reveal_strlit("fail: ");
        reveal_strlit("1 repo(s) have");
        assert(listing@ =~= "fail: "@ + repos_have(names@.len()));
    }
    listing.append(" no mapping for branchtype ");
    listing.append(text::quoted(bt).as_str());
    listing.append(":\n");
    let mut body: String = String::new();
    assert(suggestions(q.take(0), bt@) =~= body@);
    for i in 0..names.len()
        invariant
            q == names.deep_view(),
            body@ == suggestions(q.take(i as int), bt@),
    {
        assert(q.take(i + 1).drop_last() =~= q.take(i as int));
        let name: &str = names[i].as_str();
        let mut line: String = text::cat("  ", name);
        line.append("  (suggest: xen env set ");
        line.append(name);
        line.append(".branchtypes.");
        line.append(bt);
        line.append("=<branch>)\n");
        body.append(line.as_str());
    }
    assert(q.take(names@.len() as int) =~= q);
    listing.append(body.as_str());
    Refusal { listing, why: "sync: missing branchtype mappings".to_owned() }
}

/// Begins a sync of all repos to a branchtype, a branch or a tag.
pub fn sync(args: &SyncArgs, merged: &Merged, root: &str) -> (r: Result<Sync, Refusal>)
    ensures
        outcome(r) == sync_to(root@, merged.deep_view(), ref_kind(args.ref_name@)),
{
    let n: usize = merged.repos.len();
    if n == 0 {
        return Err(
            Refusal { listing: String::new(), why: "sync: no repos registered".to_owned() },
        );
    }
    let kind: RefKind = classify_ref(args.ref_name.as_str());
    if let RefKind::Branchtype(bt) = &kind {
        let missing: Vec<String> = repos_missing(merged, bt.as_str());
        if missing.len() > 0 {
            return Err(refuse(&missing, bt.as_str()));
        }
    }
    let jobs: Vec<Job> = make_jobs(merged, root, &kind);
    let mut closing: String = String::new();
    match &kind {
        RefKind::Tag(s) | RefKind::Branchtype(s) => {
            closing.append("ok: ");
            closing.append(text::count(n).as_str());
            closing.append(" repos synced to ");
            closing.append(s.as_str());
            closing.append("\n");
        },
        RefKind::ExplicitBranch(_) => {},
    }
    assert(closing@ =~= synced(n as nat, kind.deep_view()));
    Ok(Sync { jobs, at: 0, stage: Stage::Fetch, errs: 0, closing })
}

// --- laws -------------------------------------------------------------------

proof fn lemma_missing(m: Map<Text, MergedRepoModel>, ks: Seq<Text>, bt: Text, i: int)
    requires
        0 <= i < ks.len(),
        missing_names(m, ks, bt).len() == 0,
    ensures
        m[ks[i]].branchtypes.contains_key(bt),
    decreases ks.len(),
{
    if i < ks.len() - 1 {
        lemma_missing(m, ks.drop_last(), bt, i);
    }
}

proof fn lemma_missing_names(m: Map<Text, MergedRepoModel>, ks: Seq<Text>, bt: Text, name: Text)
    ensures
        missing_names(m, ks, bt).contains(name) <==> ks.contains(name)
            && !m[name].branchtypes.contains_key(bt),
    decreases ks.len(),
{
    if ks.len() > 0 {
        let init = ks.drop_last();
        lemma_missing_names(m, init, bt, name);
        assert(ks =~= init.push(ks.last()));
        let before = missing_names(m, init, bt);
        if ks.contains(name) {
            let j = ks.index_of(name);
            if j < init.len() {
                assert(init[j] == name);
            }
        }
        if init.contains(name) {
            let j = init.index_of(name);
            assert(ks[j] == name);
        }
        assert(ks[ks.len() - 1] == ks.last());
        if !m[ks.last()].branchtypes.contains_key(bt) {
            let all = before.push(ks.last());
            assert(all[all.len() - 1] == ks.last());
            if before.contains(name) {
                let j = before.index_of(name);
                assert(all[j] == name);
            }
            if all.contains(name) {
                let j = all.index_of(name);
                if j < before.len() {
                    assert(before[j] == name);
                }
            }
        }
    }
}

/// **A branchtype that some repo does not map is refused**: a sync to a
/// branchtype begins if and only if every repo maps it, and the refusal names
/// exactly the repos that do not. A refused sync spawns nothing.
pub proof fn law_unmapped_branchtype_is_refused(
    root: Text,
    m: Map<Text, MergedRepoModel>,
    bt: Text,
    name: Text,
)
    requires
        m.dom().finite(),
        m.dom().len() > 0,
    ensures
        sync_to(root, m, RefKindModel::Branchtype(bt)) is Ok <==> forall|n: Text| #[trigger]
            m.contains_key(n) ==> m[n].branchtypes.contains_key(bt),
        sync_to(root, m, RefKindModel::Branchtype(bt)) is Err ==> sync_to(
            root,
            m,
            RefKindModel::Branchtype(bt),
        )->Err_0 == unmapped(missing_names(m, keys_of(m), bt), bt),
        missing_names(m, keys_of(m), bt).contains(name) <==> m.contains_key(name)
            && !m[name].branchtypes.contains_key(bt),
{
    let ks = keys_of(m);
    text::lemma_sorted(m.dom());
    let missing = missing_names(m, ks, bt);
    lemma_missing_names(m, ks, bt, name);
    assert(ks.contains(name) <==> ks.to_set().contains(name));
    if ks.len() == 0 {
        assert(ks.to_set() =~= Set::empty());
    }
    if missing.len() > 0 {
        let n = missing[0];
        assert(missing.contains(n));
        lemma_missing_names(m, ks, bt, n);
        assert(ks.to_set().contains(n));
        assert(m.contains_key(n));
    } else {
        assert forall|n: Text| #[trigger] m.contains_key(n) implies m[n].branchtypes.contains_key(
            bt,
        ) by {
            assert(ks.to_set().contains(n));
            lemma_missing_names(m, ks, bt, n);
        }
    }
}

/// Whether an event is a process that failed.
pub open spec fn failed(e: EventModel) -> bool {
    e is Ran && !e->Ran_0.ok()
}

/// Where a sync stands after events that all answered.
spec fn lined_up(start: SyncModel, es: Seq<EventModel>) -> bool {
    let s = start.after_all(es);
    &&& s.jobs == start.jobs
    &&& s.closing == start.closing
    &&& 0 <= s.at <= s.jobs.len()
    &&& (s.errs == 0 && !(s.stage matches StageModel::Tell(Err(_)))) == (forall|k: int|
        0 <= k < es.len() ==> !failed(#[trigger] es[k]))
    &&& s.at == s.jobs.len() ==> s.stage is Fetch
}

proof fn lemma_lined_up(jobs: Seq<JobModel>, closing: Text, es: Seq<EventModel>)
    requires
        SyncModel::fresh(jobs, closing).answers(es),
    ensures
        lined_up(SyncModel::fresh(jobs, closing), es),
    decreases es.len(),
{
    let start = SyncModel::fresh(jobs, closing);
    if es.len() > 0 {
        let init = es.drop_last();
        lemma_lined_up(jobs, closing, init);
        assert forall|k: int| 0 <= k < init.len() implies es[k] == init[k] by {}
        assert(es[es.len() - 1] == es.last());
        if forall|k: int| 0 <= k < init.len() ==> !failed(#[trigger] init[k]) {
            if !failed(es.last()) {
                assert forall|k: int| 0 <= k < es.len() implies !failed(#[trigger] es[k]) by {
                    if k < init.len() {
                        assert(!failed(init[k]));
                    }
                }
            }
        } else {
            let k = choose|k: int| 0 <= k < init.len() && failed(#[trigger] init[k]);
            assert(failed(es[k]));
        }
    }
}

/// **Success means that all went well**: a sync that comes to its end succeeds
/// if and only if no process that it ran failed.
pub proof fn law_sync_succeeds_iff_nothing_failed(
    jobs: Seq<JobModel>,
    closing: Text,
    es: Seq<EventModel>,
)
    requires
        SyncModel::fresh(jobs, closing).answers(es),
        SyncModel::fresh(jobs, closing).after_all(es).next() is End,
    ensures
        SyncModel::fresh(jobs, closing).after_all(es).next() == AskModel::End(
            Ok::<Text, Text>(closing),
        ) <==> forall|k: int| 0 <= k < es.len() ==> !failed(#[trigger] es[k]),
{
    lemma_lined_up(jobs, closing, es);
}

/// Whether the `i`-th repo was attempted on the way.
pub open spec fn attempted(start: SyncModel, es: Seq<EventModel>, i: int) -> bool {
    exists|k: int|
        0 <= k < es.len() && #[trigger] start.after_all(es.take(k)).next() == AskModel::Run(
            start.jobs[i].fetch,
        )
}

proof fn lemma_attempted(jobs: Seq<JobModel>, closing: Text, es: Seq<EventModel>, i: int)
    requires
        SyncModel::fresh(jobs, closing).answers(es),
        0 <= i < jobs.len(),
        SyncModel::fresh(jobs, closing).after_all(es).at > i || (SyncModel::fresh(
            jobs,
            closing,
        ).after_all(es).at == i && !(SyncModel::fresh(jobs, closing).after_all(es).stage is Fetch)),
    ensures
        attempted(SyncModel::fresh(jobs, closing), es, i),
    decreases es.len(),
{
    let start = SyncModel::fresh(jobs, closing);
    assert(es.len() > 0);
    let init = es.drop_last();
    let s = start.after_all(init);
    lemma_lined_up(jobs, closing, init);
    if s.at > i || (s.at == i && !(s.stage is Fetch)) {
        lemma_attempted(jobs, closing, init, i);
        let k = choose|k: int|
            0 <= k < init.len() && #[trigger] start.after_all(init.take(k)).next()
                == AskModel::Run(start.jobs[i].fetch);
        assert(init.take(k) =~= es.take(k));
    } else {
        assert(s.at == i && s.stage is Fetch);
        assert(es.take(es.len() - 1) =~= init);
        assert(start.after_all(es.take(es.len() - 1)).next() == AskModel::Run(
            start.jobs[i].fetch,
        ));
    }
}

/// **Every repo is attempted**: by the time a sync has come to its end, the
/// fetch of each repo has been run, whatever became of the others.
pub proof fn law_every_repo_is_attempted(
    jobs: Seq<JobModel>,
    closing: Text,
    es: Seq<EventModel>,
    i: int,
)
    requires
        SyncModel::fresh(jobs, closing).answers(es),
        SyncModel::fresh(jobs, closing).after_all(es).next() is End,
        0 <= i < jobs.len(),
    ensures
        attempted(SyncModel::fresh(jobs, closing), es, i),
{
    lemma_lined_up(jobs, closing, es);
    lemma_attempted(jobs, closing, es, i);
}

/// **A failed fetch skips the rest**: whatever comes next in a repo after its
/// fetch comes right after that fetch succeeded.
pub proof fn law_work_follows_fetch(s: SyncModel, e: EventModel)
    requires
        0 <= s.at < s.jobs.len(),
        s.stage is Fetch,
        s.next().answered_by(e),
    ensures
        s.next() == AskModel::Run(s.jobs[s.at].fetch),
        s.after(e).at == s.at,
        e->Ran_0.ok() ==> s.after(e).stage == (if s.jobs[s.at].branching is Some {
            StageModel::Known
        } else {
            StageModel::Checkout
        }),
        !e->Ran_0.ok() ==> s.after(e).stage matches StageModel::Tell(Err(_)),
{
}

/// **A name stands for a branch, and for nothing else**: a branch is checked
/// out by its name only right after git named it among the repo's branches,
/// and is created from its upstream only right after git did not. Where git
/// could not be asked, neither is done.
pub proof fn law_name_stands_for_a_branch(s: SyncModel, e: EventModel)
    requires
        0 <= s.at < s.jobs.len(),
        s.jobs[s.at].branching is Some,
        s.next().answered_by(e),
    ensures
        s.after(e).stage is Checkout <==> s.stage is Known && e->Ran_0.ok()
            && e->Ran_0.answer().unwrap().len() > 0,
        s.after(e).stage is Create <==> s.stage is Known && e->Ran_0.ok()
            && e->Ran_0.answer().unwrap().len() == 0,
        s.stage is Known ==> s.next() == AskModel::Run(s.jobs[s.at].branching.unwrap().known),
{
}

/// **Every git process of a repo carries the repo's auth**, and none prompts.
pub proof fn law_sync_carries_auth(
    root: Text,
    m: Map<Text, MergedRepoModel>,
    ks: Seq<Text>,
    kind: RefKindModel,
    i: int,
)
    requires
        0 <= i < ks.len(),
    ensures
        jobs_of(root, m, ks, kind)[i].fetch.env == proc::layered(m[ks[i]].auth_env),
        jobs_of(root, m, ks, kind)[i].checkout.env == proc::layered(m[ks[i]].auth_env),
        jobs_of(root, m, ks, kind)[i].branching matches Some(b) ==> b.known.env == proc::layered(
            m[ks[i]].auth_env,
        ) && b.create.env == proc::layered(m[ks[i]].auth_env) && b.forward.env == proc::layered(
            m[ks[i]].auth_env,
        ),
{
}

/// Whether a process leaves every branch what it holds: a fetch, a look at the
/// branches, a checkout of what is there, a checkout that creates a branch and
/// fails where it is there, or a merge that may only fast-forward.
pub open spec fn keeps_commits(argv: Seq<Text>) -> bool {
    argv.len() >= 3 && argv[0] == "git"@ && {
        ||| argv[1] == "fetch"@
        ||| argv[1] == "branch"@ && argv[2] == "--list"@
        ||| argv[1] == "checkout"@ && argv.len() == 3
        ||| argv[1] == "checkout"@ && argv[2] == "-b"@ && argv.len() == 5
        ||| argv[1] == "merge"@ && argv[2] == "--ff-only"@ && argv.len() == 4
    }
}

/// **A sync never resets a branch**: whatever it goes to and whatever happens
/// on the way, every process that it runs leaves every branch what it holds.
/// No word of it is `-B` or `reset`, unless that is what the ref itself is
/// called.
pub proof fn law_sync_never_resets(
    root: Text,
    m: Map<Text, MergedRepoModel>,
    kind: RefKindModel,
    es: Seq<EventModel>,
    spawn: SpawnModel,
    i: int,
)
    requires
        sync_to(root, m, kind) is Ok,
        sync_to(root, m, kind)->Ok_0.answers(es),
        sync_to(root, m, kind)->Ok_0.after_all(es).next() == AskModel::Run(spawn),
        0 <= i < spawn.argv.len(),
    ensures
        keeps_commits(spawn.argv),
        spawn.argv[i] == "-B"@ || spawn.argv[i] == "reset"@ ==> spawn.argv[i]
            == sync_to(root, m, kind)->Ok_0.jobs[sync_to(root, m, kind)->Ok_0.after_all(es).at].shown,
{
    let start = sync_to(root, m, kind)->Ok_0;
    let ks = keys_of(m);
    let s = start.after_all(es);
    lemma_lined_up(start.jobs, start.closing, es);
    lemma_branching(start.jobs, start.closing, es);
    let job = start.jobs[s.at];
    assert(job == job_of(root, ks[s.at], m[ks[s.at]], kind));
    reveal_strlit("-B");
    reveal_strlit("reset");
    reveal_strlit("git");
    reveal_strlit("fetch");
    reveal_strlit("checkout");
    reveal_strlit("merge");
    reveal_strlit("--ff-only");
    reveal_strlit("branch");
    reveal_strlit("--list");
    reveal_strlit("--");
    reveal_strlit("-b");
    assert("-b"@[1] == 'b' && "-B"@[1] == 'B' && "--"@[1] == '-');
    reveal_strlit("--tags");
    reveal_strlit("origin");
    reveal_strlit("refs/tags/");
    reveal_strlit("origin/");
    assert("reset"@[0] == 'r' && "merge"@[0] == 'm' && "fetch"@[0] == 'f');
}

/// **A branch is told as synced only where it was fast-forwarded**: in a job
/// that ends on a branch, success follows right on a fast-forward that
/// succeeded, and the fast-forward right on a checkout that did. Where git
/// refuses to fast-forward, the repo is reported as failed.
pub proof fn law_branch_is_fast_forwarded(s: SyncModel, e: EventModel)
    requires
        0 <= s.at < s.jobs.len(),
        s.jobs[s.at].branching is Some,
        s.next().answered_by(e),
    ensures
        s.after(e).stage == StageModel::Tell(Ok::<(), Text>(())) ==> s.next() == AskModel::Run(
            s.jobs[s.at].branching.unwrap().forward,
        ) && e->Ran_0.ok(),
        s.after(e).stage is Forward ==> (s.stage is Checkout || s.stage is Create)
            && e->Ran_0.ok(),
        s.stage is Forward && !e->Ran_0.ok() ==> s.after(e).stage == StageModel::Tell(
            Err::<(), Text>(checked(s.jobs[s.at].branching.unwrap().forward, e->Ran_0)->Err_0),
        ),
{
}

/// What only a branch asks for is only come to where there is one.
proof fn lemma_branching(jobs: Seq<JobModel>, closing: Text, es: Seq<EventModel>)
    requires
        SyncModel::fresh(jobs, closing).answers(es),
    ensures
        ({
            let s = SyncModel::fresh(jobs, closing).after_all(es);
            s.stage is Known || s.stage is Create || s.stage is Forward ==> 0 <= s.at < jobs.len()
                && jobs[s.at].branching is Some
        }),
    decreases es.len(),
{
    if es.len() > 0 {
        lemma_branching(jobs, closing, es.drop_last());
        lemma_lined_up(jobs, closing, es.drop_last());
    }
}

} // verus!
