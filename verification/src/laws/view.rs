//! What values stand for: what they hold, no more and no less.

use crate::hooks::{Firing, Hook, Phase};
use crate::invocation::{Ending, EndingModel, Next, NextModel};
use crate::key::{
    Key, KeyError, KeyErrorModel, KeyModel, PrivateKey, PrivateKeyModel, SharedKey, SharedKeyModel,
};
use crate::proc::{Output, Reply, ReplyModel, Spawn};
use crate::rules::{Gate, Rule};
use crate::store::{
    EnvPaths, HooksConfig, PrivateConfig, PrivateRepo, RulesConfig, SharedConfig, SharedDoc,
    SharedDocModel, SharedHook, SharedRepo, SharedRule,
};
use crate::text::outcome;
use crate::verbs::cascade::{self, Candidate};
use crate::verbs::env::{EnvPlan, EnvPlanModel};
use crate::verbs::merged::{Merged, MergedRepo};
use crate::verbs::portal::Addition;
use crate::verbs::resonate::{self, Entry, Listing, ListingModel, Source, SourceModel};
use crate::verbs::summon;
use crate::verbs::sync::{self, Branching, RefKind, RefKindModel, Refusal};
use crate::verbs::work::{Ask, AskModel, Event, EventModel};
use vstd::prelude::*;

verus! {

/// **An outcome keeps its side**: a success stands for a success, and a failure
/// for a failure, each with what it carries.
pub proof fn law_outcome<T: DeepView, E: DeepView>(v: T, e: E)
    ensures
        outcome(Ok::<T, E>(v)) == Ok::<T::V, E::V>(v.deep_view()),
        outcome(Err::<T, E>(e)) == Err::<T::V, E::V>(e.deep_view()),
{
}

/// **A process stands for what is spawned, and its reply for what came of it.**
pub proof fn law_processes(s: Spawn, o: Output, why: String)
    ensures
        s.deep_view().dir == s.dir@,
        s.deep_view().argv == s.argv.deep_view(),
        s.deep_view().env == s.env.deep_view(),
        s.deep_view().stdin_null == s.stdin_null,
        o.deep_view().status == o.status,
        o.deep_view().stdout == o.stdout@,
        o.deep_view().stderr == o.stderr@,
        Reply::Ran(o).deep_view() == ReplyModel::Ran(o.deep_view()),
        Reply::Lost(why).deep_view() == ReplyModel::Lost(why@),
{
}

/// **The files of the env stand for what is recorded in them.**
pub proof fn law_records(
    paths: EnvPaths,
    repo: SharedRepo,
    rule: SharedRule,
    hook: SharedHook,
    private: PrivateRepo,
)
    ensures
        paths.deep_view().shared_root == paths.shared_root@,
        paths.deep_view().shared_dir == paths.shared_dir@,
        paths.deep_view().private_dir == paths.private_dir@,
        repo.deep_view().url == repo.url.deep_view(),
        repo.deep_view().at == repo.at.deep_view(),
        repo.deep_view().paths == repo.paths.deep_view(),
        repo.deep_view().branchtypes == repo.branchtypes.deep_view(),
        rule.deep_view().pattern == rule.pattern.deep_view(),
        rule.deep_view().predicate == rule.predicate.deep_view(),
        rule.deep_view().message == rule.message.deep_view(),
        hook.deep_view().match_pattern == hook.match_pattern.deep_view(),
        hook.deep_view().exec_command == hook.exec_command.deep_view(),
        hook.deep_view().when == hook.when.deep_view(),
        private.deep_view().key == private.key.deep_view(),
        private.deep_view().helper == private.helper.deep_view(),
        private.deep_view().token == private.token.deep_view(),
        private.deep_view().at == private.at.deep_view(),
        private.deep_view().paths == private.paths.deep_view(),
        private.deep_view().branchtypes == private.branchtypes.deep_view(),
{
}

/// **A config stands for its entries.**
pub proof fn law_configs(
    repos: SharedConfig,
    rules: RulesConfig,
    hooks: HooksConfig,
    private: PrivateConfig,
    merged: Merged,
    r: MergedRepo,
)
    ensures
        repos.deep_view() == repos.repos.deep_view(),
        rules.deep_view() == rules.rules.deep_view(),
        hooks.deep_view() == hooks.hooks.deep_view(),
        private.deep_view() == private.repos.deep_view(),
        merged.deep_view() == merged.repos.deep_view(),
        SharedDoc::Repos(repos).deep_view() == SharedDocModel::Repos(repos.deep_view()),
        SharedDoc::Rules(rules).deep_view() == SharedDocModel::Rules(rules.deep_view()),
        SharedDoc::Hooks(hooks).deep_view() == SharedDocModel::Hooks(hooks.deep_view()),
        r.deep_view().url == r.url.deep_view(),
        r.deep_view().at == r.at.deep_view(),
        r.deep_view().paths == r.paths.deep_view(),
        r.deep_view().branchtypes == r.branchtypes.deep_view(),
        r.deep_view().auth_count == r.auth_count,
        r.deep_view().auth_env == r.auth_env.deep_view(),
{
}

/// **A key stands for itself, in its layer.**
pub proof fn law_keys(k: Key, e: KeyError)
    ensures
        match k {
            Key::Shared(SharedKey::Url(r)) => k.deep_view() == KeyModel::Shared(
                SharedKeyModel::Url(r.deep_view()),
            ),
            Key::Shared(SharedKey::At(r)) => k.deep_view() == KeyModel::Shared(
                SharedKeyModel::At(r.deep_view()),
            ),
            Key::Shared(SharedKey::Branchtype(r, b)) => k.deep_view() == KeyModel::Shared(
                SharedKeyModel::Branchtype(r.deep_view(), b.deep_view()),
            ),
            Key::Shared(SharedKey::Paths(r)) => k.deep_view() == KeyModel::Shared(
                SharedKeyModel::Paths(r.deep_view()),
            ),
            Key::Shared(SharedKey::Rule(n, f)) => k.deep_view() == KeyModel::Shared(
                SharedKeyModel::Rule(n.deep_view(), f),
            ),
            Key::Shared(SharedKey::Hook(n, f)) => k.deep_view() == KeyModel::Shared(
                SharedKeyModel::Hook(n.deep_view(), f),
            ),
            Key::Private(PrivateKey::Auth(r, f)) => k.deep_view() == KeyModel::Private(
                PrivateKeyModel::Auth(r.deep_view(), f),
            ),
            Key::Private(PrivateKey::AtOverride(r)) => k.deep_view() == KeyModel::Private(
                PrivateKeyModel::AtOverride(r.deep_view()),
            ),
            Key::Private(PrivateKey::BranchtypeOverride(r, b)) => k.deep_view()
                == KeyModel::Private(
                PrivateKeyModel::BranchtypeOverride(r.deep_view(), b.deep_view()),
            ),
            Key::Private(PrivateKey::PathsOverride(r)) => k.deep_view() == KeyModel::Private(
                PrivateKeyModel::PathsOverride(r.deep_view()),
            ),
        },
        match e {
            KeyError::InvalidRepoName(s) => e.deep_view() == KeyErrorModel::InvalidRepoName(s@),
            KeyError::InvalidBranchtype(s) => e.deep_view() == KeyErrorModel::InvalidBranchtype(
                s@,
            ),
            KeyError::InvalidRuleName(s) => e.deep_view() == KeyErrorModel::InvalidRuleName(s@),
            KeyError::InvalidHookName(s) => e.deep_view() == KeyErrorModel::InvalidHookName(s@),
            KeyError::Unknown(s) => e.deep_view() == KeyErrorModel::Unknown(s@),
            KeyError::WrongLayer(s, l) => e.deep_view() == KeyErrorModel::WrongLayer(s@, l@),
        },
{
}

/// **Rules and hooks stand for what they run and what they say.**
pub proof fn law_rules_and_hooks(r: Rule, g: Gate, h: Hook, f: Firing, p: Phase)
    ensures
        r.deep_view().name == r.name@,
        r.deep_view().pattern == r.pattern@,
        r.deep_view().predicate == r.predicate@,
        r.deep_view().message == r.message@,
        g.deep_view().spawn == g.spawn.deep_view(),
        g.deep_view().lost == g.lost@,
        g.deep_view().denial == g.denial@,
        h.deep_view().name == h.name@,
        h.deep_view().pattern == h.pattern@,
        h.deep_view().command == h.command@,
        h.deep_view().phase == h.phase,
        f.deep_view().spawn == f.spawn.deep_view(),
        f.deep_view().lost == f.lost@,
        f.deep_view().label == f.label@,
        f.deep_view().failure == f.failure@,
        p.deep_view() == p,
{
}

/// **What is asked for stands for itself, and so does what came of it.**
pub proof fn law_work<'a>(a: Ask<'a>, e: Event)
    ensures
        match a {
            Ask::Probe(p) => a.deep_view() == AskModel::Probe(p@),
            Ask::Trees => a.deep_view() == AskModel::Trees,
            Ask::MakeDir(p) => a.deep_view() == AskModel::MakeDir(p@),
            Ask::Rename(from, to) => a.deep_view() == AskModel::Rename(from@, to@),
            Ask::Run(s) => a.deep_view() == AskModel::Run((*s).deep_view()),
            Ask::Say(t) => a.deep_view() == AskModel::Say(t@),
            Ask::Warn(t) => a.deep_view() == AskModel::Warn(t@),
            Ask::End(r) => a.deep_view() == AskModel::End(outcome(r)),
        },
        match e {
            Event::Probed { exists, parent, file_name } => e.deep_view() == (EventModel::Probed {
                exists,
                parent: parent.deep_view(),
                file_name: file_name.deep_view(),
            }),
            Event::Found(trees) => e.deep_view() == EventModel::Found(trees.deep_view()),
            Event::Done(r) => e.deep_view() == EventModel::Done(outcome(r)),
            Event::Ran(r) => e.deep_view() == EventModel::Ran(r.deep_view()),
            Event::Said => e.deep_view() == EventModel::Said,
        },
{
}

/// **The same of a cascade.**
pub proof fn law_cascade_work<'a>(a: cascade::Ask<'a>, e: cascade::Event, c: Candidate)
    ensures
        match a {
            cascade::Ask::Exists(cs) => a.deep_view() == cascade::AskModel::Exists(
                (*cs).deep_view(),
            ),
            cascade::Ask::Each(v) => a.deep_view() == cascade::AskModel::Each((*v).deep_view()),
            cascade::Ask::Rules => a.deep_view() == cascade::AskModel::Rules,
            cascade::Ask::Gate(s) => a.deep_view() == cascade::AskModel::Gate((*s).deep_view()),
            cascade::Ask::Together(v) => a.deep_view() == cascade::AskModel::Together(
                (*v).deep_view(),
            ),
            cascade::Ask::End(t, end) => a.deep_view() == cascade::AskModel::End(
                t@,
                (*end).deep_view(),
            ),
        },
        match e {
            cascade::Event::Exist(v) => e.deep_view() == cascade::EventModel::Exist(v@),
            cascade::Event::RanEach(v) => e.deep_view() == cascade::EventModel::RanEach(
                v.deep_view(),
            ),
            cascade::Event::Loaded(m) => e.deep_view() == cascade::EventModel::Loaded(
                m.deep_view(),
            ),
            cascade::Event::Ran(r) => e.deep_view() == cascade::EventModel::Ran(r.deep_view()),
            cascade::Event::Finished(r) => e.deep_view() == cascade::EventModel::Finished(
                r.deep_view(),
            ),
        },
        c.deep_view().name == c.name@,
        c.deep_view().dir == c.dir@,
        c.deep_view().auth == c.auth.deep_view(),
{
}

/// **The same of a copy.**
pub proof fn law_resonate_work<'a>(
    a: resonate::Ask<'a>,
    e: resonate::Event,
    s: Source,
    l: Listing,
    entry: Entry,
)
    ensures
        match a {
            resonate::Ask::Source(p) => a.deep_view() == resonate::AskModel::Source(p@),
            resonate::Ask::MakeDir(p) => a.deep_view() == resonate::AskModel::MakeDir(p@),
            resonate::Ask::List(p) => a.deep_view() == resonate::AskModel::List(p@),
            resonate::Ask::Exists(p) => a.deep_view() == resonate::AskModel::Exists(p@),
            resonate::Ask::Copy(from, to) => a.deep_view() == resonate::AskModel::Copy(from@, to@),
            resonate::Ask::End(r) => a.deep_view() == resonate::AskModel::End(outcome(r)),
        },
        match e {
            resonate::Event::Source(x) => e.deep_view() == resonate::EventModel::Source(
                x.deep_view(),
            ),
            resonate::Event::Done(r) => e.deep_view() == resonate::EventModel::Done(outcome(r)),
            resonate::Event::Listed(x) => e.deep_view() == resonate::EventModel::Listed(
                x.deep_view(),
            ),
            resonate::Event::Exists(b) => e.deep_view() == resonate::EventModel::Exists(b),
        },
        match s {
            Source::Missing => s.deep_view() == SourceModel::Missing,
            Source::Dir => s.deep_view() == SourceModel::Dir,
            Source::File(n) => s.deep_view() == SourceModel::File(n.deep_view()),
            Source::Other => s.deep_view() == SourceModel::Other,
        },
        match l {
            Listing::Entries(v) => l.deep_view() == ListingModel::Entries(v.deep_view()),
            Listing::Unread(w) => l.deep_view() == ListingModel::Unread(w@),
            Listing::Broken { before, why } => l.deep_view() == (ListingModel::Broken {
                before: before.deep_view(),
                why: why@,
            }),
        },
        entry.deep_view().name == entry.name@,
        entry.deep_view().kind == entry.kind,
{
}

/// **The same of an invocation.**
pub proof fn law_invocation_work<'a>(n: Next<'a>, end: Ending)
    ensures
        match n {
            Next::Run(s) => n.deep_view() == NextModel::Run((*s).deep_view()),
            Next::Verb => n.deep_view() == NextModel::Verb,
            Next::Over(e) => n.deep_view() == NextModel::Over((*e).deep_view()),
        },
        match end {
            Ending::Fine => end.deep_view() == EndingModel::Fine,
            Ending::Failed(why) => end.deep_view() == EndingModel::Failed(why.deep_view()),
        },
{
}

/// **What a sync and a portal work on stands for itself.**
pub proof fn law_jobs(
    k: RefKind,
    b: Branching,
    j: sync::Job,
    r: Refusal,
    s: summon::Job,
    a: Addition,
)
    ensures
        match k {
            RefKind::Tag(t) => k.deep_view() == RefKindModel::Tag(t@),
            RefKind::ExplicitBranch(t) => k.deep_view() == RefKindModel::ExplicitBranch(t@),
            RefKind::Branchtype(t) => k.deep_view() == RefKindModel::Branchtype(t@),
        },
        b.deep_view().known == b.known.deep_view(),
        b.deep_view().create == b.create.deep_view(),
        b.deep_view().forward == b.forward.deep_view(),
        j.deep_view().name == j.name@,
        j.deep_view().shown == j.shown@,
        j.deep_view().fetch == j.fetch.deep_view(),
        j.deep_view().checkout == j.checkout.deep_view(),
        j.deep_view().branching == j.branching.deep_view(),
        r.deep_view().listing == r.listing@,
        r.deep_view().why == r.why@,
        s.deep_view().name == s.name@,
        s.deep_view().url == s.url.deep_view(),
        s.deep_view().target == s.target@,
        s.deep_view().paths == s.paths.deep_view(),
        s.deep_view().auth == s.auth.deep_view(),
        a.deep_view().name == a.name.deep_view(),
        a.deep_view().url == a.url@,
        a.deep_view().at == a.at@,
        a.deep_view().alias == a.alias.deep_view(),
{
}

/// **A plan stands for what it does.**
pub proof fn law_plans(p: EnvPlan)
    ensures
        match p {
            EnvPlan::Write { key, value, said } => p.deep_view() == (EnvPlanModel::Write {
                key: key.deep_view(),
                value: value@,
                said: said@,
            }),
            EnvPlan::Unset { key, said } => p.deep_view() == (EnvPlanModel::Unset {
                key: key.deep_view(),
                said: said@,
            }),
            EnvPlan::Get { key } => p.deep_view() == (EnvPlanModel::Get { key: key@ }),
            EnvPlan::RemoveRule { name } => p.deep_view() == (EnvPlanModel::RemoveRule {
                name: name.deep_view(),
            }),
            EnvPlan::GetRule { key } => p.deep_view() == (EnvPlanModel::GetRule { key: key@ }),
            EnvPlan::ListRules => p.deep_view() == EnvPlanModel::ListRules,
            EnvPlan::RemoveHook { name } => p.deep_view() == (EnvPlanModel::RemoveHook {
                name: name.deep_view(),
            }),
            EnvPlan::GetHook { key } => p.deep_view() == (EnvPlanModel::GetHook { key: key@ }),
            EnvPlan::ListHooks => p.deep_view() == EnvPlanModel::ListHooks,
            EnvPlan::RawShared => p.deep_view() == EnvPlanModel::RawShared,
            EnvPlan::RawPrivate => p.deep_view() == EnvPlanModel::RawPrivate,
            EnvPlan::Status => p.deep_view() == EnvPlanModel::Status,
        },
{
}

} // verus!
