//! `cascade`: run a shell command across a selected set of repos.
//!
//! Two filters select, both optional: repos with a dirty tree or unpushed
//! commits, and repos that are on a matching branch. Then every workspace rule
//! that matches the command has its say in every selected repo. If any of them
//! denies, the whole cascade aborts before a single user command spawns.
//! Otherwise the command runs in all selected repos at once, and each repo's
//! outcome is reported.

use crate::cli::CascadeArgs;
use crate::invocation::{Ending, EndingModel};
use crate::proc::{
    self, shell_not_spawned, shell_of, spawn_of, Reply, ReplyModel, Spawn, SpawnModel,
};
use crate::rules::{self, gates_of, passed, Gate, GateModel, Rule, RuleModel};
use crate::store::{RulesConfig, SharedRuleModel};
use crate::text::{self, outcome, Class, Text};
use crate::textmap::keys_of;
use crate::verbs::glob::{glob_match, globbed};
use crate::verbs::merged::{copy_env, Merged, MergedRepoModel};
use crate::verbs::sync::{dir_of, repo_dir};
use vstd::prelude::*;

verus! {

// --- candidates -------------------------------------------------------------

/// A repo in which the command may run.
#[derive(Debug)]
pub struct Candidate {
    pub name: String,
    pub dir: String,
    pub auth: Vec<(String, String)>,
}

/// What a `Candidate` stands for.
#[verifier::ext_equal]
pub struct CandidateModel {
    pub name: Text,
    pub dir: Text,
    pub auth: Seq<(Text, Text)>,
}

impl DeepView for Candidate {
    type V = CandidateModel;

    open spec fn deep_view(&self) -> CandidateModel {
        CandidateModel { name: self.name@, dir: self.dir@, auth: self.auth.deep_view() }
    }
}

/// One repo as a candidate.
pub open spec fn candidate(root: Text, name: Text, r: MergedRepoModel) -> CandidateModel {
    CandidateModel { name, dir: repo_dir(root, name, r), auth: r.auth_env }
}

/// All repos as candidates, in name order.
pub open spec fn candidates(root: Text, m: Map<Text, MergedRepoModel>) -> Seq<CandidateModel> {
    let ks = keys_of(m);
    Seq::new(ks.len(), |i: int| candidate(root, ks[i], m[ks[i]]))
}

fn all_candidates(root: &str, merged: &Merged) -> (r: Vec<Candidate>)
    ensures
        r.deep_view() == candidates(root@, merged.deep_view()),
{
    let ghost m = merged.deep_view();
    let ghost q = keys_of(m);
    let n: usize = merged.repos.len();
    let mut out: Vec<Candidate> = Vec::new();
    for i in 0..n
        invariant
            m == merged.deep_view(),
            q == keys_of(m),
            n == q.len(),
            out@.len() == i,
            forall|j: int| 0 <= j < i ==> #[trigger] out.deep_view()[j] == candidate(
                root@,
                q[j],
                m[q[j]],
            ),
    {
        let ghost done = out.deep_view();
        let name: &str = merged.repos.key_at(i);
        let c = Candidate {
            name: name.to_owned(),
            dir: dir_of(root, name, merged.repos.value_at(i)),
            auth: merged.repos.value_at(i).auth_refs(),
        };
        let ghost made = c.deep_view();
        out.push(c);
        assert(out.deep_view() =~= done.push(made));
    }
    assert(out.deep_view() =~= candidates(root@, m));
    out
}

/// The candidates that are flagged, in order.
pub open spec fn kept(cs: Seq<CandidateModel>, flags: Seq<bool>) -> Seq<CandidateModel>
    decreases cs.len(),
{
    if cs.len() == 0 {
        Seq::empty()
    } else if cs.len() <= flags.len() && flags[cs.len() - 1] {
        kept(cs.drop_last(), flags).push(cs.last())
    } else {
        kept(cs.drop_last(), flags)
    }
}

fn keep(cs: &Vec<Candidate>, flags: &Vec<bool>) -> (r: Vec<Candidate>)
    ensures
        r.deep_view() == kept(cs.deep_view(), flags@),
{
    let ghost q = cs.deep_view();
    let mut out: Vec<Candidate> = Vec::new();
    assert(out.deep_view() =~= kept(q.take(0), flags@));
    for i in 0..cs.len()
        invariant
            q == cs.deep_view(),
            out.deep_view() == kept(q.take(i as int), flags@),
    {
        let ghost done = out.deep_view();
        assert(q.take(i + 1).drop_last() =~= q.take(i as int));
        if i < flags.len() && flags[i] {
            let c = Candidate {
                name: cs[i].name.clone(),
                dir: cs[i].dir.clone(),
                auth: copy_env(&cs[i].auth),
            };
            let ghost made = c.deep_view();
            out.push(c);
            assert(out.deep_view() =~= done.push(made));
            assert(made =~= q[i as int]);
        }
    }
    assert(q.take(cs@.len() as int) =~= q);
    out
}

// --- probes -----------------------------------------------------------------

/// Asks git what is not committed.
pub open spec fn status_probe(c: CandidateModel) -> SpawnModel {
    spawn_of(c.dir, seq!["git"@, "status"@, "--porcelain"@], c.auth)
}

/// Asks git what is not pushed.
pub open spec fn unpushed_probe(c: CandidateModel) -> SpawnModel {
    spawn_of(
        c.dir,
        seq!["git"@, "log"@, "--branches"@, "--not"@, "--remotes"@, "--oneline"@],
        c.auth,
    )
}

/// Asks git for the current branch.
pub open spec fn branch_probe(c: CandidateModel) -> SpawnModel {
    spawn_of(c.dir, seq!["git"@, "symbolic-ref"@, "--quiet"@, "--short"@, "HEAD"@], c.auth)
}

/// The probes for changes: two for each candidate, one after the other.
pub open spec fn change_probes(cs: Seq<CandidateModel>) -> Seq<SpawnModel>
    decreases cs.len(),
{
    if cs.len() == 0 {
        Seq::empty()
    } else {
        change_probes(cs.drop_last()).push(status_probe(cs.last())).push(
            unpushed_probe(cs.last()),
        )
    }
}

/// The probes for branches.
pub open spec fn branch_probes(cs: Seq<CandidateModel>) -> Seq<SpawnModel> {
    Seq::new(cs.len(), |i: int| branch_probe(cs[i]))
}

/// Whether a probe succeeded and had something to say.
pub open spec fn says_something(r: ReplyModel) -> bool {
    r.answer() matches Some(t) && t.len() > 0
}

/// Whether the `i`-th candidate has a dirty tree or unpushed commits, going by
/// what the probes said.
pub open spec fn changed(rs: Seq<ReplyModel>, i: int) -> bool {
    (2 * i < rs.len() && says_something(rs[2 * i])) || (2 * i + 1 < rs.len() && says_something(
        rs[2 * i + 1],
    ))
}

/// Whether the `i`-th candidate is on a branch that matches, going by what the
/// probes said.
pub open spec fn on_branch(rs: Seq<ReplyModel>, pattern: Text, i: int) -> bool {
    i < rs.len() && (rs[i].answer() matches Some(b) && globbed(pattern, b))
}

/// For each of `n` candidates, whether it has changed.
pub open spec fn changed_flags(rs: Seq<ReplyModel>, n: nat) -> Seq<bool> {
    Seq::new(n, |i: int| changed(rs, i))
}

/// For each of `n` candidates, whether it is on a branch that matches.
pub open spec fn branch_flags(rs: Seq<ReplyModel>, pattern: Text, n: nat) -> Seq<bool> {
    Seq::new(n, |i: int| on_branch(rs, pattern, i))
}

fn make_change_probes(cs: &Vec<Candidate>) -> (r: Vec<Spawn>)
    ensures
        r.deep_view() == change_probes(cs.deep_view()),
{
    let ghost q = cs.deep_view();
    let mut out: Vec<Spawn> = Vec::new();
    assert(out.deep_view() =~= change_probes(q.take(0)));
    for i in 0..cs.len()
        invariant
            q == cs.deep_view(),
            out.deep_view() == change_probes(q.take(i as int)),
    {
        let ghost done = out.deep_view();
        assert(q.take(i + 1).drop_last() =~= q.take(i as int));
        let c: &Candidate = &cs[i];
        let status: Spawn = proc::git(c.dir.as_str(), &["status", "--porcelain"], &c.auth);
        let unpushed: Spawn = proc::git(
            c.dir.as_str(),
            &["log", "--branches", "--not", "--remotes", "--oneline"],
            &c.auth,
        );
        assert(status.deep_view().argv =~= status_probe(c.deep_view()).argv);
        assert(unpushed.deep_view().argv =~= unpushed_probe(c.deep_view()).argv);
        let ghost a = status.deep_view();
        let ghost b = unpushed.deep_view();
        out.push(status);
        out.push(unpushed);
        assert(out.deep_view() =~= done.push(a).push(b));
    }
    assert(q.take(cs@.len() as int) =~= q);
    out
}

fn make_branch_probes(cs: &Vec<Candidate>) -> (r: Vec<Spawn>)
    ensures
        r.deep_view() == branch_probes(cs.deep_view()),
{
    let mut out: Vec<Spawn> = Vec::new();
    for i in 0..cs.len()
        invariant
            out@.len() == i,
            forall|j: int| 0 <= j < i ==> #[trigger] out.deep_view()[j] == branch_probe(
                cs.deep_view()[j],
            ),
    {
        let ghost done = out.deep_view();
        let c: &Candidate = &cs[i];
        let probe: Spawn = proc::git(
            c.dir.as_str(),
            &["symbolic-ref", "--quiet", "--short", "HEAD"],
            &c.auth,
        );
        assert(probe.deep_view().argv =~= branch_probe(c.deep_view()).argv);
        let ghost made = probe.deep_view();
        out.push(probe);
        assert(out.deep_view() =~= done.push(made));
    }
    assert(out.deep_view() =~= branch_probes(cs.deep_view()));
    out
}

fn is_saying(r: &Reply) -> (b: bool)
    ensures
        b == says_something(r.deep_view()),
{
    match r.answer() {
        Some(t) => t.as_str().unicode_len() > 0,
        None => false,
    }
}

fn flag_changed(rs: &Vec<Reply>, n: usize) -> (r: Vec<bool>)
    ensures
        r@ == changed_flags(rs.deep_view(), n as nat),
{
    let mut out: Vec<bool> = Vec::new();
    // The replies come in pairs; `at` runs through them two by two.
    let mut at: usize = 0;
    for i in 0..n
        invariant
            out@ == changed_flags(rs.deep_view(), i as nat),
            at <= rs.len(),
            at == if 2 * i <= rs.len() {
                2 * i
            } else {
                rs.len() as int
            },
    {
        let mut flag: bool = false;
        if at < rs.len() {
            flag = is_saying(&rs[at]);
            at = at + 1;
        }
        if at < rs.len() {
            flag = flag || is_saying(&rs[at]);
            at = at + 1;
        }
        out.push(flag);
        assert(flag == changed(rs.deep_view(), i as int));
        assert(out@ =~= changed_flags(rs.deep_view(), (i + 1) as nat));
    }
    out
}

fn flag_branches(rs: &Vec<Reply>, pattern: &str, n: usize) -> (r: Vec<bool>)
    ensures
        r@ == branch_flags(rs.deep_view(), pattern@, n as nat),
{
    let mut out: Vec<bool> = Vec::new();
    for i in 0..n
        invariant
            out@ == branch_flags(rs.deep_view(), pattern@, i as nat),
    {
        let flag: bool = if i < rs.len() {
            match rs[i].answer() {
                Some(b) => glob_match(pattern, b.as_str()),
                None => false,
            }
        } else {
            false
        };
        out.push(flag);
        assert(flag == on_branch(rs.deep_view(), pattern@, i as int));
        assert(out@ =~= branch_flags(rs.deep_view(), pattern@, (i + 1) as nat));
    }
    out
}

// --- gates and launch -------------------------------------------------------

/// The gates of all candidates, repo by repo.
pub open spec fn all_gates(rs: Seq<RuleModel>, command: Text, cs: Seq<CandidateModel>) -> Seq<
    GateModel,
>
    decreases cs.len(),
{
    if cs.len() == 0 {
        Seq::empty()
    } else {
        all_gates(rs, command, cs.drop_last()) + gates_of(
            rs,
            command,
            cs.last().name,
            cs.last().dir,
        )
    }
}

/// The user's command in each candidate.
pub open spec fn launches(command: Text, cs: Seq<CandidateModel>) -> Seq<SpawnModel> {
    Seq::new(cs.len(), |i: int| shell_of(cs[i].dir, command, cs[i].auth))
}

fn make_gates(rs: &Vec<Rule>, command: &str, cs: &Vec<Candidate>) -> (r: Vec<Gate>)
    ensures
        r.deep_view() == all_gates(rs.deep_view(), command@, cs.deep_view()),
{
    let ghost q = cs.deep_view();
    let mut out: Vec<Gate> = Vec::new();
    assert(out.deep_view() =~= all_gates(rs.deep_view(), command@, q.take(0)));
    for i in 0..cs.len()
        invariant
            q == cs.deep_view(),
            out.deep_view() == all_gates(rs.deep_view(), command@, q.take(i as int)),
    {
        let ghost done = out.deep_view();
        assert(q.take(i + 1).drop_last() =~= q.take(i as int));
        let mut more: Vec<Gate> = rules::check(
            rs,
            command,
            cs[i].name.as_str(),
            cs[i].dir.as_str(),
        );
        let ghost made = more.deep_view();
        let ghost a = out@;
        let ghost b = more@;
        out.append(&mut more);
        assert(out@ =~= a + b);
        assert(out.deep_view() =~= done + made);
    }
    assert(q.take(cs@.len() as int) =~= q);
    out
}

fn make_launches(command: &str, cs: &Vec<Candidate>) -> (r: Vec<Spawn>)
    ensures
        r.deep_view() == launches(command@, cs.deep_view()),
{
    let mut out: Vec<Spawn> = Vec::new();
    for i in 0..cs.len()
        invariant
            out@.len() == i,
            forall|j: int| 0 <= j < i ==> #[trigger] out.deep_view()[j] == shell_of(
                cs.deep_view()[j].dir,
                command@,
                cs.deep_view()[j].auth,
            ),
    {
        let ghost done = out.deep_view();
        let s: Spawn = proc::sh_env(cs[i].dir.as_str(), command, &cs[i].auth);
        let ghost made = s.deep_view();
        out.push(s);
        assert(out.deep_view() =~= done.push(made));
    }
    assert(out.deep_view() =~= launches(command@, cs.deep_view()));
    out
}

// --- reports ----------------------------------------------------------------

/// The line above a repo's output.
pub open spec fn header(name: Text, label: Text) -> Text {
    "=== "@ + name + " ("@ + label + ") ===\n"@
}

/// What the header says of an exit status.
pub open spec fn label_of(status: int) -> Text {
    if status == 0 {
        "ok"@
    } else {
        "exit "@ + text::signed_decimal(status)
    }
}

/// What is reported of one repo, on both streams: the header on every stream
/// that has content, and on standard output where neither has any.
pub open spec fn reported(c: CandidateModel, command: Text, r: ReplyModel) -> (Text, Text) {
    match r {
        ReplyModel::Lost(_) => (
            Seq::empty(),
            header(c.name, "spawn failed"@) + shell_not_spawned(c.dir, command) + "\n"@,
        ),
        ReplyModel::Ran(o) => {
            let head = header(c.name, label_of(o.status));
            (
                if o.stdout.len() > 0 || o.stderr.len() == 0 {
                    head + o.stdout
                } else {
                    Seq::empty()
                },
                if o.stderr.len() > 0 {
                    head + o.stderr
                } else {
                    Seq::empty()
                },
            )
        },
    }
}

fn write_header(name: &str, label: &str) -> (r: String)
    ensures
        r@ == header(name@, label@),
{
    let mut h: String = text::cat("=== ", name);
    h.append(" (");
    h.append(label);
    h.append(") ===\n");
    h
}

/// Reports what came of the command in one repo: standard output, then
/// standard error.
pub fn report(c: &Candidate, command: &str, reply: &Reply) -> (r: (String, String))
    ensures
        r.deep_view() == reported(c.deep_view(), command@, reply.deep_view()),
{
    match reply {
        Reply::Lost(_) => {
            let mut err: String = write_header(c.name.as_str(), "spawn failed");
            err.append(proc::shell_lost(c.dir.as_str(), command).as_str());
            err.append("\n");
            (String::new(), err)
        },
        Reply::Ran(o) => {
            let label: String = if o.ok() {
                "ok".to_owned()
            } else {
                text::cat("exit ", text::signed_number(o.status).as_str())
            };
            let head: String = write_header(c.name.as_str(), label.as_str());
            let quiet_out: bool = o.stdout.as_str().unicode_len() == 0;
            let quiet_err: bool = o.stderr.as_str().unicode_len() == 0;
            let out: String = if !quiet_out || quiet_err {
                text::cat(head.as_str(), o.stdout.as_str())
            } else {
                String::new()
            };
            let err: String = if !quiet_err {
                text::cat(head.as_str(), o.stderr.as_str())
            } else {
                String::new()
            };
            (out, err)
        },
    }
}

// --- the machine ------------------------------------------------------------

#[derive(Debug)]
enum Stage {
    Exists,
    Changed(Vec<Spawn>),
    Branch(Vec<Spawn>),
    Rules,
    Gate(usize),
    Launch { spawns: Vec<Spawn>, done: usize, failed: usize },
    Over(String, Ending),
}

/// How far a cascade has come.
pub enum StageModel {
    /// Which candidates exist on disk.
    Exists,
    /// Which candidates have changed.
    Changed(Seq<SpawnModel>),
    /// Which candidates are on a matching branch.
    Branch(Seq<SpawnModel>),
    /// What the workspace rules are.
    Rules,
    /// What a predicate says.
    Gate(int),
    /// The user's command is running.
    Launch { spawns: Seq<SpawnModel>, done: int, failed: int },
    /// The cascade is over, with this last line on standard error.
    Over(Text, EndingModel),
}

impl DeepView for Stage {
    type V = StageModel;

    closed spec fn deep_view(&self) -> StageModel {
        match self {
            Stage::Exists => StageModel::Exists,
            Stage::Changed(v) => StageModel::Changed(v.deep_view()),
            Stage::Branch(v) => StageModel::Branch(v.deep_view()),
            Stage::Rules => StageModel::Rules,
            Stage::Gate(i) => StageModel::Gate(*i as int),
            Stage::Launch { spawns, done, failed } => StageModel::Launch {
                spawns: spawns.deep_view(),
                done: *done as int,
                failed: *failed as int,
            },
            Stage::Over(t, e) => StageModel::Over(t@, e.deep_view()),
        }
    }
}

/// A cascade under way.
#[derive(Debug)]
pub struct Cascade {
    command: String,
    changed_only: bool,
    pattern: Option<String>,
    cands: Vec<Candidate>,
    gates: Vec<Gate>,
    stage: Stage,
}

/// What a `Cascade` stands for.
pub struct CascadeModel {
    pub command: Text,
    pub changed_only: bool,
    pub pattern: Option<Text>,
    /// The repos that are still selected.
    pub cands: Seq<CandidateModel>,
    /// The predicates that have a say; none before the rules are known.
    pub gates: Seq<GateModel>,
    pub stage: StageModel,
}

impl DeepView for Cascade {
    type V = CascadeModel;

    closed spec fn deep_view(&self) -> CascadeModel {
        CascadeModel {
            command: self.command@,
            changed_only: self.changed_only,
            pattern: self.pattern.deep_view(),
            cands: self.cands.deep_view(),
            gates: self.gates.deep_view(),
            stage: self.stage.deep_view(),
        }
    }
}

/// What a cascade asks for next.
#[derive(Debug)]
pub enum Ask<'a> {
    /// Say of each candidate whether its directory exists.
    Exists(&'a Vec<Candidate>),
    /// Run processes one after the other.
    Each(&'a Vec<Spawn>),
    /// Load the workspace rules.
    Rules,
    /// Run one predicate.
    Gate(&'a Spawn),
    /// Run the user's command in all selected repos at once.
    Together(&'a Vec<Spawn>),
    /// The cascade is over: write this to standard error, and end so.
    End(&'a str, &'a Ending),
}

/// What an `Ask` stands for.
pub enum AskModel {
    Exists(Seq<CandidateModel>),
    Each(Seq<SpawnModel>),
    Rules,
    Gate(SpawnModel),
    Together(Seq<SpawnModel>),
    End(Text, EndingModel),
}

impl<'a> DeepView for Ask<'a> {
    type V = AskModel;

    open spec fn deep_view(&self) -> AskModel {
        match self {
            Ask::Exists(cs) => AskModel::Exists((*cs).deep_view()),
            Ask::Each(v) => AskModel::Each((*v).deep_view()),
            Ask::Rules => AskModel::Rules,
            Ask::Gate(s) => AskModel::Gate((*s).deep_view()),
            Ask::Together(v) => AskModel::Together((*v).deep_view()),
            Ask::End(t, e) => AskModel::End(t@, (*e).deep_view()),
        }
    }
}

/// What came of what a cascade asked for.
#[derive(Debug)]
pub enum Event {
    /// Of each candidate, whether its directory exists.
    Exist(Vec<bool>),
    /// What came of each process.
    RanEach(Vec<Reply>),
    /// The workspace rules.
    Loaded(RulesConfig),
    /// What came of the predicate.
    Ran(Reply),
    /// The user's command came to its end in one repo.
    Finished(Reply),
}

/// What an `Event` stands for.
pub enum EventModel {
    Exist(Seq<bool>),
    RanEach(Seq<ReplyModel>),
    Loaded(Map<Text, SharedRuleModel>),
    Ran(ReplyModel),
    Finished(ReplyModel),
}

impl DeepView for Event {
    type V = EventModel;

    open spec fn deep_view(&self) -> EventModel {
        match self {
            Event::Exist(v) => EventModel::Exist(v@),
            Event::RanEach(v) => EventModel::RanEach(v.deep_view()),
            Event::Loaded(c) => EventModel::Loaded(c.deep_view()),
            Event::Ran(r) => EventModel::Ran(r.deep_view()),
            Event::Finished(r) => EventModel::Finished(r.deep_view()),
        }
    }
}

/// The line that closes a cascade.
pub open spec fn summary(total: nat, failed: nat) -> Text {
    "cascade: "@ + text::decimal(total) + " repos, "@ + text::decimal(failed) + " failed\n"@
}

impl CascadeModel {
    /// The same cascade at another stage.
    pub open spec fn at_stage(self, stage: StageModel) -> CascadeModel {
        CascadeModel { stage, ..self }
    }

    /// The same cascade with other candidates.
    pub open spec fn with_cands(self, cands: Seq<CandidateModel>) -> CascadeModel {
        CascadeModel { cands, ..self }
    }

    /// On to the filter for changes, if there is one.
    pub open spec fn to_changed(self) -> CascadeModel {
        if self.changed_only {
            self.at_stage(StageModel::Changed(change_probes(self.cands)))
        } else {
            self.to_branch()
        }
    }

    /// On to the filter for branches, if there is one.
    pub open spec fn to_branch(self) -> CascadeModel {
        if self.pattern is Some {
            self.at_stage(StageModel::Branch(branch_probes(self.cands)))
        } else {
            self.to_rules()
        }
    }

    /// On to the rules, if any candidate is left.
    pub open spec fn to_rules(self) -> CascadeModel {
        if self.cands.len() == 0 {
            self.at_stage(StageModel::Over("cascade: no repos matched\n"@, EndingModel::Fine))
        } else {
            self.at_stage(StageModel::Rules)
        }
    }

    /// On to the `i`-th gate, or to the launch behind the last one.
    pub open spec fn to_gate(self, i: int) -> CascadeModel {
        if i < self.gates.len() {
            self.at_stage(StageModel::Gate(i))
        } else {
            self.at_stage(
                StageModel::Launch {
                    spawns: launches(self.command, self.cands),
                    done: 0,
                    failed: 0,
                },
            )
        }
    }

    /// On to the end, with an error.
    pub open spec fn refused(self, why: Text) -> CascadeModel {
        self.at_stage(StageModel::Over(Seq::empty(), EndingModel::Failed(Some(why))))
    }

    /// What is asked for next.
    pub open spec fn next(self) -> AskModel {
        match self.stage {
            StageModel::Exists => AskModel::Exists(self.cands),
            StageModel::Changed(v) => AskModel::Each(v),
            StageModel::Branch(v) => AskModel::Each(v),
            StageModel::Rules => AskModel::Rules,
            StageModel::Gate(i) => AskModel::Gate(self.gates[i].spawn),
            StageModel::Launch { spawns, .. } => AskModel::Together(spawns),
            StageModel::Over(t, e) => AskModel::End(t, e),
        }
    }

    /// What an event leads to. One that was not waited for changes nothing.
    pub open spec fn after(self, e: EventModel) -> CascadeModel {
        match (self.stage, e) {
            (StageModel::Exists, EventModel::Exist(flags)) => self.with_cands(
                kept(self.cands, flags),
            ).to_changed(),
            (StageModel::Changed(_), EventModel::RanEach(rs)) => self.with_cands(
                kept(self.cands, changed_flags(rs, self.cands.len())),
            ).to_branch(),
            (StageModel::Branch(_), EventModel::RanEach(rs)) => self.with_cands(
                kept(self.cands, branch_flags(rs, self.pattern.unwrap(), self.cands.len())),
            ).to_rules(),
            (StageModel::Rules, EventModel::Loaded(m)) => match rules::compiled(m, keys_of(m)) {
                Err(why) => self.refused(why),
                Ok(rs) => CascadeModel {
                    gates: all_gates(rs, self.command, self.cands),
                    ..self
                }.to_gate(0),
            },
            (StageModel::Gate(i), EventModel::Ran(r)) => match passed(self.gates[i], r) {
                Err(why) => self.refused(why),
                Ok(_) => self.to_gate(i + 1),
            },
            (StageModel::Launch { spawns, done, failed }, EventModel::Finished(r)) => {
                let done = done + 1;
                let failed = if r.ok() {
                    failed
                } else {
                    failed + 1
                };
                self.at_stage(
                    if done < self.cands.len() {
                        StageModel::Launch { spawns, done, failed }
                    } else {
                        StageModel::Over(
                            summary(done as nat, failed as nat),
                            if failed > 0 {
                                EndingModel::Failed(None)
                            } else {
                                EndingModel::Fine
                            },
                        )
                    },
                )
            },
            _ => self,
        }
    }

    /// What a sequence of events leads to.
    pub open spec fn after_all(self, es: Seq<EventModel>) -> CascadeModel
        decreases es.len(),
    {
        if es.len() == 0 {
            self
        } else {
            self.after_all(es.drop_last()).after(es.last())
        }
    }
}

impl Cascade {
    #[verifier::type_invariant]
    spec fn within(self) -> bool {
        match self.stage {
            Stage::Branch(_) => self.pattern is Some,
            Stage::Gate(i) => i < self.gates.len() && self.cands.len() > 0,
            Stage::Rules => self.cands.len() > 0,
            Stage::Launch { done, failed, .. } => done < self.cands.len() && failed <= done,
            _ => true,
        }
    }

    /// The repos that are still selected. Once the command runs, the processes
    /// are in the same order.
    pub fn selected(&self) -> (r: &Vec<Candidate>)
        ensures
            r.deep_view() == self.deep_view().cands,
    {
        &self.cands
    }

    /// The command, as one shell line.
    pub fn command(&self) -> (r: &str)
        ensures
            r@ == self.deep_view().command,
    {
        self.command.as_str()
    }

    fn to_rules(
        command: String,
        changed_only: bool,
        pattern: Option<String>,
        cands: Vec<Candidate>,
        gates: Vec<Gate>,
    ) -> (r: Cascade)
        ensures
            r.deep_view() == CascadeModel::made(
                command@,
                changed_only,
                pattern.deep_view(),
                cands.deep_view(),
                gates.deep_view(),
            ).to_rules(),
    {
        if cands.len() == 0 {
            let stage: Stage = Stage::Over("cascade: no repos matched\n".to_owned(), Ending::Fine);
            Cascade { command, changed_only, pattern, cands, gates, stage }
        } else {
            Cascade { command, changed_only, pattern, cands, gates, stage: Stage::Rules }
        }
    }

    fn to_branch(
        command: String,
        changed_only: bool,
        pattern: Option<String>,
        cands: Vec<Candidate>,
        gates: Vec<Gate>,
    ) -> (r: Cascade)
        ensures
            r.deep_view() == CascadeModel::made(
                command@,
                changed_only,
                pattern.deep_view(),
                cands.deep_view(),
                gates.deep_view(),
            ).to_branch(),
    {
        if pattern.is_some() {
            let stage: Stage = Stage::Branch(make_branch_probes(&cands));
            Cascade { command, changed_only, pattern, cands, gates, stage }
        } else {
            Cascade::to_rules(command, changed_only, pattern, cands, gates)
        }
    }

    fn to_changed(
        command: String,
        changed_only: bool,
        pattern: Option<String>,
        cands: Vec<Candidate>,
        gates: Vec<Gate>,
    ) -> (r: Cascade)
        ensures
            r.deep_view() == CascadeModel::made(
                command@,
                changed_only,
                pattern.deep_view(),
                cands.deep_view(),
                gates.deep_view(),
            ).to_changed(),
    {
        if changed_only {
            let stage: Stage = Stage::Changed(make_change_probes(&cands));
            Cascade { command, changed_only, pattern, cands, gates, stage }
        } else {
            Cascade::to_branch(command, changed_only, pattern, cands, gates)
        }
    }

    fn to_gate(
        command: String,
        changed_only: bool,
        pattern: Option<String>,
        cands: Vec<Candidate>,
        gates: Vec<Gate>,
        i: usize,
    ) -> (r: Cascade)
        requires
            cands@.len() > 0,
        ensures
            r.deep_view() == CascadeModel::made(
                command@,
                changed_only,
                pattern.deep_view(),
                cands.deep_view(),
                gates.deep_view(),
            ).to_gate(i as int),
    {
        if i < gates.len() {
            Cascade { command, changed_only, pattern, cands, gates, stage: Stage::Gate(i) }
        } else {
            let spawns: Vec<Spawn> = make_launches(command.as_str(), &cands);
            let stage: Stage = Stage::Launch { spawns, done: 0, failed: 0 };
            Cascade { command, changed_only, pattern, cands, gates, stage }
        }
    }

    /// What is asked for next.
    pub fn next(&self) -> (r: Ask<'_>)
        ensures
            r.deep_view() == self.deep_view().next(),
    {
        proof {
            use_type_invariant(self);
        }
        match &self.stage {
            Stage::Exists => Ask::Exists(&self.cands),
            Stage::Changed(v) => Ask::Each(v),
            Stage::Branch(v) => Ask::Each(v),
            Stage::Rules => Ask::Rules,
            Stage::Gate(i) => Ask::Gate(&self.gates[*i].spawn),
            Stage::Launch { spawns, .. } => Ask::Together(spawns),
            Stage::Over(t, e) => Ask::End(t.as_str(), e),
        }
    }

    /// Takes what came of what was asked for.
    pub fn feed(self, event: &Event) -> (r: Cascade)
        ensures
            r.deep_view() == self.deep_view().after(event.deep_view()),
    {
        proof {
            use_type_invariant(&self);
        }
        let Cascade { command, changed_only, pattern, cands, gates, stage } = self;
        match (stage, event) {
            (Stage::Exists, Event::Exist(flags)) => {
                let left: Vec<Candidate> = keep(&cands, flags);
                Cascade::to_changed(command, changed_only, pattern, left, gates)
            },
            (Stage::Changed(_), Event::RanEach(rs)) => {
                let left: Vec<Candidate> = keep(&cands, &flag_changed(rs, cands.len()));
                Cascade::to_branch(command, changed_only, pattern, left, gates)
            },
            (Stage::Branch(v), Event::RanEach(rs)) => match &pattern {
                Some(p) => {
                    let flags: Vec<bool> = flag_branches(rs, p.as_str(), cands.len());
                    let left: Vec<Candidate> = keep(&cands, &flags);
                    Cascade::to_rules(command, changed_only, pattern, left, gates)
                },
                None => Cascade {
                    command,
                    changed_only,
                    pattern,
                    cands,
                    gates,
                    stage: Stage::Branch(v),
                },
            },
            (Stage::Rules, Event::Loaded(cfg)) => match rules::compile(cfg) {
                Err(why) => {
                    let stage: Stage = Stage::Over(String::new(), Ending::Failed(Some(why)));
                    Cascade { command, changed_only, pattern, cands, gates, stage }
                },
                Ok(rs) => {
                    let gates: Vec<Gate> = make_gates(&rs, command.as_str(), &cands);
                    Cascade::to_gate(command, changed_only, pattern, cands, gates, 0)
                },
            },
            (Stage::Gate(i), Event::Ran(reply)) => match gates[i].pass(reply) {
                Err(why) => {
                    let stage: Stage = Stage::Over(String::new(), Ending::Failed(Some(why)));
                    Cascade { command, changed_only, pattern, cands, gates, stage }
                },
                Ok(_) => Cascade::to_gate(command, changed_only, pattern, cands, gates, i + 1),
            },
            (Stage::Launch { spawns, done, failed }, Event::Finished(reply)) => {
                let done: usize = done + 1;
                let failed: usize = if reply.ok() {
                    failed
                } else {
                    failed + 1
                };
                let stage: Stage = if done < cands.len() {
                    Stage::Launch { spawns, done, failed }
                } else {
                    let mut line: String = text::cat("cascade: ", text::count(done).as_str());
                    line.append(" repos, ");
                    line.append(text::count(failed).as_str());
                    line.append(" failed\n");
                    Stage::Over(
                        line,
                        if failed > 0 {
                            Ending::Failed(None)
                        } else {
                            Ending::Fine
                        },
                    )
                };
                Cascade { command, changed_only, pattern, cands, gates, stage }
            },
            (stage, _) => Cascade { command, changed_only, pattern, cands, gates, stage },
        }
    }
}

// --- the verb ---------------------------------------------------------------

impl CascadeModel {
    /// A cascade before its next stage is decided.
    pub open spec fn made(
        command: Text,
        changed_only: bool,
        pattern: Option<Text>,
        cands: Seq<CandidateModel>,
        gates: Seq<GateModel>,
    ) -> CascadeModel {
        CascadeModel { command, changed_only, pattern, cands, gates, stage: StageModel::Exists }
    }
}

/// The cascade of a command over all repos, or why it does not begin.
pub open spec fn cascaded(
    root: Text,
    m: Map<Text, MergedRepoModel>,
    words: Seq<Text>,
    changed_only: bool,
    pattern: Option<Text>,
) -> Result<CascadeModel, Text> {
    let command = text::joined(words, " "@);
    if text::trimmed(command, Class::White).len() == 0 {
        Err("cascade: empty command"@)
    } else {
        Ok(
            CascadeModel::made(command, changed_only, pattern, candidates(root, m), Seq::empty()),
        )
    }
}

/// Begins a cascade.
pub fn cascade(args: CascadeArgs, merged: &Merged, root: &str) -> (r: Result<Cascade, String>)
    ensures
        outcome(r) == cascaded(
            root@,
            merged.deep_view(),
            args.command.deep_view(),
            args.changed_only,
            args.branch_pattern.deep_view(),
        ),
{
    let command: String = text::join(&args.command, " ");
    if text::trim(command.as_str(), Class::White).as_str().unicode_len() == 0 {
        return Err("cascade: empty command".to_owned());
    }
    let gates: Vec<Gate> = Vec::new();
    assert(gates.deep_view() =~= Seq::empty());
    Ok(
        Cascade {
            command,
            changed_only: args.changed_only,
            pattern: args.branch_pattern,
            cands: all_candidates(root, merged),
            gates,
            stage: Stage::Exists,
        },
    )
}

// --- laws -------------------------------------------------------------------

/// **A filter keeps exactly what it flags.**
pub proof fn law_filter_is_exact(cs: Seq<CandidateModel>, flags: Seq<bool>, c: CandidateModel)
    ensures
        kept(cs, flags).contains(c) <==> exists|i: int|
            0 <= i < cs.len() && i < flags.len() && flags[i] && #[trigger] cs[i] == c,
    decreases cs.len(),
{
    if cs.len() > 0 {
        let init = cs.drop_last();
        law_filter_is_exact(init, flags, c);
        let before = kept(init, flags);
        let last = cs.len() - 1;
        if before.contains(c) {
            let i = choose|i: int|
                0 <= i < init.len() && i < flags.len() && flags[i] && #[trigger] init[i] == c;
            assert(cs[i] == c);
            let j = before.index_of(c);
            assert(before.push(cs.last())[j] == c);
        }
        if cs.len() <= flags.len() && flags[last] {
            let all = before.push(cs.last());
            assert(all[all.len() - 1] == cs[last]);
            if all.contains(c) {
                let j = all.index_of(c);
                if j < before.len() {
                    assert(before[j] == c);
                } else {
                    assert(cs[last] == c);
                }
            }
        }
        if exists|i: int|
            0 <= i < cs.len() && i < flags.len() && flags[i] && #[trigger] cs[i] == c {
            let i = choose|i: int|
                0 <= i < cs.len() && i < flags.len() && flags[i] && #[trigger] cs[i] == c;
            if i < init.len() {
                assert(init[i] == c);
            }
        }
    }
}

/// **Each candidate has its own two probes**, and every process of a repo
/// carries the repo's auth.
pub proof fn law_cascade_carries_auth(command: Text, cs: Seq<CandidateModel>, i: int)
    requires
        0 <= i < cs.len(),
    ensures
        change_probes(cs).len() == 2 * cs.len(),
        change_probes(cs)[2 * i] == status_probe(cs[i]),
        change_probes(cs)[2 * i + 1] == unpushed_probe(cs[i]),
        change_probes(cs)[2 * i].env == proc::layered(cs[i].auth),
        change_probes(cs)[2 * i + 1].env == proc::layered(cs[i].auth),
        branch_probes(cs)[i].env == proc::layered(cs[i].auth),
        launches(command, cs)[i].env == proc::layered(cs[i].auth),
    decreases cs.len(),
{
    if cs.len() > 1 {
        law_cascade_carries_auth(command, cs.drop_last(), 0);
        if i < cs.len() - 1 {
            law_cascade_carries_auth(command, cs.drop_last(), i);
        }
    } else {
        assert(change_probes(cs.drop_last()) =~= Seq::empty());
    }
}

/// The state after the first `k` events.
pub open spec fn state_at(start: CascadeModel, es: Seq<EventModel>, k: int) -> CascadeModel {
    start.after_all(es.take(k))
}

/// Whether a gate was asked on the way, and let the cascade through.
pub open spec fn let_through(start: CascadeModel, es: Seq<EventModel>, g: GateModel) -> bool {
    exists|k: int|
        0 <= k < es.len() && (#[trigger] state_at(start, es, k)).next() == AskModel::Gate(g.spawn)
            && es[k] is Ran && es[k]->Ran_0.ok()
}

/// Which gates have let the cascade through, and what is launched behind them.
spec fn through(start: CascadeModel, es: Seq<EventModel>, s: CascadeModel) -> bool {
    &&& s.command == start.command
    &&& match s.stage {
        StageModel::Gate(i) => 0 <= i < s.gates.len() && forall|j: int|
            0 <= j < i ==> let_through(start, es, #[trigger] s.gates[j]),
        StageModel::Launch { spawns, .. } => spawns == launches(s.command, s.cands) && forall|
            j: int,
        |
            0 <= j < s.gates.len() ==> let_through(start, es, #[trigger] s.gates[j]),
        _ => true,
    }
}

proof fn lemma_through_stays(start: CascadeModel, es: Seq<EventModel>, g: GateModel)
    requires
        es.len() > 0,
        let_through(start, es.drop_last(), g),
    ensures
        let_through(start, es, g),
{
    let init = es.drop_last();
    let k = choose|k: int|
        0 <= k < init.len() && (#[trigger] state_at(start, init, k)).next() == AskModel::Gate(
            g.spawn,
        ) && init[k] is Ran && init[k]->Ran_0.ok();
    assert(init.take(k) =~= es.take(k));
    assert(state_at(start, es, k) == state_at(start, init, k));
    assert(es[k] == init[k]);
}

proof fn lemma_through(start: CascadeModel, es: Seq<EventModel>)
    requires
        start.stage is Exists,
    ensures
        through(start, es, start.after_all(es)),
    decreases es.len(),
{
    if es.len() > 0 {
        let init = es.drop_last();
        lemma_through(start, init);
        let s = start.after_all(init);
        let t = start.after_all(es);
        let e = es.last();
        assert(es.take(es.len() - 1) =~= init);
        assert(state_at(start, es, es.len() - 1) == s);
        assert(es[es.len() - 1] == e);
        match s.stage {
            StageModel::Gate(i) => {
                assert(t.gates == s.gates);
                assert forall|j: int| 0 <= j < i implies let_through(
                    start,
                    es,
                    #[trigger] s.gates[j],
                ) by {
                    lemma_through_stays(start, es, s.gates[j]);
                }
                if let EventModel::Ran(r) = e {
                    if passed(s.gates[i], r) is Ok {
                        assert(let_through(start, es, s.gates[i]));
                    }
                }
            },
            StageModel::Launch { .. } => {
                assert(t.gates == s.gates);
                assert forall|j: int| 0 <= j < s.gates.len() implies let_through(
                    start,
                    es,
                    #[trigger] s.gates[j],
                ) by {
                    lemma_through_stays(start, es, s.gates[j]);
                }
            },
            _ => {},
        }
    }
}

/// **No user command spawns before every gate has let the cascade through**:
/// by the time the command is to run, each predicate of each matching rule has
/// run in each selected repo and succeeded.
pub proof fn law_all_gates_before_launch(start: CascadeModel, es: Seq<EventModel>, i: int)
    requires
        start.stage is Exists,
        start.after_all(es).next() is Together,
        0 <= i < start.after_all(es).gates.len(),
    ensures
        let_through(start, es, start.after_all(es).gates[i]),
{
    lemma_through(start, es);
}

/// **What is launched is the command, in every selected repo.**
pub proof fn law_launch_is_the_command_everywhere(
    start: CascadeModel,
    es: Seq<EventModel>,
    spawns: Seq<SpawnModel>,
)
    requires
        start.stage is Exists,
        start.after_all(es).next() == AskModel::Together(spawns),
    ensures
        spawns == launches(start.command, start.after_all(es).cands),
{
    lemma_through(start, es);
}

/// What is left of the candidates after the filters that are asked for.
pub open spec fn selection(
    s: CascadeModel,
    there: Seq<bool>,
    changes: Seq<ReplyModel>,
    branches: Seq<ReplyModel>,
) -> Seq<CandidateModel> {
    let existing = kept(s.cands, there);
    let touched = if s.changed_only {
        kept(existing, changed_flags(changes, existing.len()))
    } else {
        existing
    };
    match s.pattern {
        Some(p) => kept(touched, branch_flags(branches, p, touched.len())),
        None => touched,
    }
}

/// **The filters select**: of the repos that exist on disk, those that have
/// changed where that is asked for, and of those the ones on a matching branch
/// where that is asked for. Where none is left the cascade is over, and well.
pub proof fn law_filters_select(
    s: CascadeModel,
    there: Seq<bool>,
    changes: Seq<ReplyModel>,
    branches: Seq<ReplyModel>,
)
    requires
        s.stage is Exists,
    ensures
        ({
            let a = s.after(EventModel::Exist(there));
            let b = if s.changed_only {
                a.after(EventModel::RanEach(changes))
            } else {
                a
            };
            let c = if s.pattern is Some {
                b.after(EventModel::RanEach(branches))
            } else {
                b
            };
            &&& c.cands == selection(s, there, changes, branches)
            &&& c.stage == if c.cands.len() == 0 {
                StageModel::Over("cascade: no repos matched\n"@, EndingModel::Fine)
            } else {
                StageModel::Rules
            }
        }),
{
}

/// **The gates are those of the rules**: once the rules are known, the gates
/// are the predicates of all rules that match the command, in all repos that
/// are selected; neither the gates nor the selection change from then on.
pub proof fn law_gates_are_those_of_the_rules(
    s: CascadeModel,
    m: Map<Text, SharedRuleModel>,
    e: EventModel,
)
    ensures
        s.stage is Rules && rules::compiled(m, keys_of(m)) is Ok ==> {
            let t = s.after(EventModel::Loaded(m));
            t.cands == s.cands && t.gates == all_gates(
                rules::compiled(m, keys_of(m))->Ok_0,
                s.command,
                s.cands,
            )
        },
        s.stage is Gate || s.stage is Launch ==> s.after(e).gates == s.gates && s.after(e).cands
            == s.cands && s.after(e).command == s.command,
{
}

/// **A denial aborts the whole cascade**: after a predicate that does not
/// succeed the cascade is over, as failed, and stays over.
pub proof fn law_denial_aborts(s: CascadeModel, r: ReplyModel, es: Seq<EventModel>)
    requires
        s.stage is Gate,
        !r.ok(),
    ensures
        s.after(EventModel::Ran(r)).after_all(es).next() matches AskModel::End(
            _,
            EndingModel::Failed(Some(_)),
        ),
    decreases es.len(),
{
    if es.len() > 0 {
        law_denial_aborts(s, r, es.drop_last());
    }
}

/// How many of the processes failed.
pub open spec fn failures(rs: Seq<ReplyModel>) -> nat
    decreases rs.len(),
{
    if rs.len() == 0 {
        0
    } else if rs.last().ok() {
        failures(rs.drop_last())
    } else {
        failures(rs.drop_last()) + 1
    }
}

/// Whether the command was launched and has come to its end nowhere yet.
pub open spec fn just_launched(s: CascadeModel) -> bool {
    s.stage is Launch && s.stage->done == 0 && s.stage->failed == 0
}

/// The ends of the user's command, as events.
pub open spec fn finishes(rs: Seq<ReplyModel>) -> Seq<EventModel> {
    Seq::new(rs.len(), |i: int| EventModel::Finished(rs[i]))
}

proof fn lemma_counts(s: CascadeModel, rs: Seq<ReplyModel>)
    requires
        just_launched(s),
        rs.len() < s.cands.len(),
    ensures
        s.after_all(finishes(rs)) == s.at_stage(
            StageModel::Launch {
                spawns: s.stage->spawns,
                done: rs.len() as int,
                failed: failures(rs) as int,
            },
        ),
    decreases rs.len(),
{
    if rs.len() > 0 {
        lemma_counts(s, rs.drop_last());
        assert(finishes(rs).drop_last() =~= finishes(rs.drop_last()));
        assert(finishes(rs).last() == EventModel::Finished(rs.last()));
    }
}

/// **Every repo counts**: a cascade keeps going whatever fails. It is over once
/// the command has come to its end in every selected repo, it says how many
/// repos there were and in how many it failed, and it fails exactly where some
/// did.
pub proof fn law_summary_counts_every_repo(s: CascadeModel, rs: Seq<ReplyModel>)
    requires
        just_launched(s),
        s.cands.len() > 0,
        rs.len() == s.cands.len(),
    ensures
        s.after_all(finishes(rs)).next() == AskModel::End(
            summary(rs.len(), failures(rs)),
            if failures(rs) == 0 {
                EndingModel::Fine
            } else {
                EndingModel::Failed(None)
            },
        ),
{
    lemma_counts(s, rs.drop_last());
    assert(finishes(rs).drop_last() =~= finishes(rs.drop_last()));
    assert(finishes(rs).last() == EventModel::Finished(rs.last()));
}

} // verus!
