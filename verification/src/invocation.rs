//! One invocation: a verb with the hooks wrapped around it.
//!
//! Pre-hooks run before the verb dispatches; if one fails, the verb does not
//! run. Post-hooks run after the verb completes successfully; if one fails,
//! the command as a whole fails.
//!
//! `Invocation` says what comes next and takes what came of it.

use crate::hooks::{self, firings_of, heard, shown, Firing, FiringModel, Hook, Phase};
use crate::proc::{Reply, ReplyModel, Spawn, SpawnModel};
use crate::store::{HooksConfig, SharedHookModel};
use crate::text::{outcome, Text};
use crate::textmap::keys_of;
use vstd::prelude::*;

verus! {

/// How a verb, or a whole invocation, ended.
#[derive(Debug)]
pub enum Ending {
    /// It did what was asked.
    Fine,
    /// It failed, with something left to say or not.
    Failed(Option<String>),
}

/// What an `Ending` stands for.
pub enum EndingModel {
    Fine,
    Failed(Option<Text>),
}

impl DeepView for Ending {
    type V = EndingModel;

    open spec fn deep_view(&self) -> EndingModel {
        match self {
            Ending::Fine => EndingModel::Fine,
            Ending::Failed(e) => EndingModel::Failed(e.deep_view()),
        }
    }
}

/// How far an invocation has come.
#[derive(Debug)]
enum Stage {
    Pre(usize),
    Verb,
    Post(usize),
    Over(Ending),
}

/// How far an invocation has come: at which pre-hook, at the verb, at which
/// post-hook, or at its end.
pub enum StageModel {
    Pre(int),
    Verb,
    Post(int),
    Over(EndingModel),
}

impl DeepView for Stage {
    type V = StageModel;

    closed spec fn deep_view(&self) -> StageModel {
        match self {
            Stage::Pre(i) => StageModel::Pre(*i as int),
            Stage::Verb => StageModel::Verb,
            Stage::Post(i) => StageModel::Post(*i as int),
            Stage::Over(e) => StageModel::Over(e.deep_view()),
        }
    }
}

/// A verb in the middle of its hooks.
#[derive(Debug)]
pub struct Invocation {
    pres: Vec<Firing>,
    posts: Vec<Firing>,
    stage: Stage,
}

/// What an `Invocation` stands for.
pub struct InvocationModel {
    pub pres: Seq<FiringModel>,
    pub posts: Seq<FiringModel>,
    pub stage: StageModel,
}

impl DeepView for Invocation {
    type V = InvocationModel;

    closed spec fn deep_view(&self) -> InvocationModel {
        InvocationModel {
            pres: self.pres.deep_view(),
            posts: self.posts.deep_view(),
            stage: self.stage.deep_view(),
        }
    }
}

/// What comes next in an invocation.
#[derive(Debug)]
pub enum Next<'a> {
    /// Run a hook.
    Run(&'a Spawn),
    /// Run the verb.
    Verb,
    /// Nothing: the invocation ended so.
    Over(&'a Ending),
}

/// What a `Next` stands for.
pub enum NextModel {
    Run(SpawnModel),
    Verb,
    Over(EndingModel),
}

impl<'a> DeepView for Next<'a> {
    type V = NextModel;

    open spec fn deep_view(&self) -> NextModel {
        match self {
            Next::Run(s) => NextModel::Run((*s).deep_view()),
            Next::Verb => NextModel::Verb,
            Next::Over(e) => NextModel::Over((*e).deep_view()),
        }
    }
}

/// What came of a step.
pub enum EventModel {
    /// A hook ran.
    Reply(ReplyModel),
    /// The verb ended.
    Ended(EndingModel),
}

impl InvocationModel {
    /// The pre-hooks from the `i`-th on, then the verb.
    pub open spec fn at_pre(self, i: int) -> InvocationModel {
        InvocationModel {
            stage: if i < self.pres.len() {
                StageModel::Pre(i)
            } else {
                StageModel::Verb
            },
            ..self
        }
    }

    /// The post-hooks from the `i`-th on, then the end.
    pub open spec fn at_post(self, i: int) -> InvocationModel {
        InvocationModel {
            stage: if i < self.posts.len() {
                StageModel::Post(i)
            } else {
                StageModel::Over(EndingModel::Fine)
            },
            ..self
        }
    }

    /// The end.
    pub open spec fn over(self, e: EndingModel) -> InvocationModel {
        InvocationModel { stage: StageModel::Over(e), ..self }
    }

    /// An invocation that has come to its verb.
    pub open spec fn at_verb(pres: Seq<FiringModel>, posts: Seq<FiringModel>) -> InvocationModel {
        InvocationModel { pres, posts, stage: StageModel::Verb }
    }

    /// An invocation that has not begun.
    pub open spec fn fresh(pres: Seq<FiringModel>, posts: Seq<FiringModel>) -> InvocationModel {
        InvocationModel::at_verb(pres, posts).at_pre(0)
    }

    /// The hook that runs next, if one does.
    pub open spec fn firing(self) -> Option<FiringModel> {
        match self.stage {
            StageModel::Pre(i) => Some(self.pres[i]),
            StageModel::Post(i) => Some(self.posts[i]),
            _ => None,
        }
    }

    /// What is shown of the output of the hook that ran.
    pub open spec fn shows(self, reply: ReplyModel) -> (Text, Text) {
        match self.firing() {
            Some(f) => shown(f, reply),
            None => (Seq::empty(), Seq::empty()),
        }
    }

    /// What comes next.
    pub open spec fn next(self) -> NextModel {
        match self.stage {
            StageModel::Pre(i) => NextModel::Run(self.pres[i].spawn),
            StageModel::Verb => NextModel::Verb,
            StageModel::Post(i) => NextModel::Run(self.posts[i].spawn),
            StageModel::Over(e) => NextModel::Over(e),
        }
    }

    /// What an event leads to. One that was not waited for changes nothing.
    pub open spec fn after(self, e: EventModel) -> InvocationModel {
        match (self.stage, e) {
            (StageModel::Pre(i), EventModel::Reply(r)) => match heard(self.pres[i], r) {
                Ok(_) => self.at_pre(i + 1),
                Err(why) => self.over(EndingModel::Failed(Some(why))),
            },
            (StageModel::Verb, EventModel::Ended(EndingModel::Fine)) => self.at_post(0),
            (StageModel::Verb, EventModel::Ended(EndingModel::Failed(why))) => self.over(
                EndingModel::Failed(why),
            ),
            (StageModel::Post(i), EventModel::Reply(r)) => match heard(self.posts[i], r) {
                Ok(_) => self.at_post(i + 1),
                Err(why) => self.over(EndingModel::Failed(Some(why))),
            },
            _ => self,
        }
    }

    /// What a sequence of events leads to.
    pub open spec fn after_all(self, es: Seq<EventModel>) -> InvocationModel
        decreases es.len(),
    {
        if es.len() == 0 {
            self
        } else {
            self.after_all(es.drop_last()).after(es.last())
        }
    }
}

/// The invocation of a command under the hooks of a config, or the first
/// objection to a hook.
pub open spec fn invoked(m: Map<Text, SharedHookModel>, command: Text, root: Text) -> Result<
    InvocationModel,
    Text,
> {
    match hooks::compiled(m, keys_of(m)) {
        Err(e) => Err(e),
        Ok(hs) => Ok(
            InvocationModel::fresh(
                firings_of(hs, command, Phase::Pre, root),
                firings_of(hs, command, Phase::Post, root),
            ),
        ),
    }
}

impl Invocation {
    #[verifier::type_invariant]
    spec fn within(self) -> bool {
        match self.stage {
            Stage::Pre(i) => i < self.pres.len(),
            Stage::Post(i) => i < self.posts.len(),
            _ => true,
        }
    }

    fn at_pre(pres: Vec<Firing>, posts: Vec<Firing>, i: usize) -> (r: Invocation)
        ensures
            r.deep_view() == InvocationModel::at_verb(
                pres.deep_view(),
                posts.deep_view(),
            ).at_pre(i as int),
    {
        if i < pres.len() {
            Invocation { pres, posts, stage: Stage::Pre(i) }
        } else {
            Invocation { pres, posts, stage: Stage::Verb }
        }
    }

    fn at_post(pres: Vec<Firing>, posts: Vec<Firing>, i: usize) -> (r: Invocation)
        ensures
            r.deep_view() == InvocationModel::at_verb(
                pres.deep_view(),
                posts.deep_view(),
            ).at_post(i as int),
    {
        if i < posts.len() {
            Invocation { pres, posts, stage: Stage::Post(i) }
        } else {
            Invocation { pres, posts, stage: Stage::Over(Ending::Fine) }
        }
    }

    /// Begins the invocation of `command`, the joined argv after `xen`, at a
    /// workspace root. Every hook compiles before anything runs.
    pub fn start(cfg: &HooksConfig, command: &str, root: &str) -> (r: Result<Invocation, String>)
        ensures
            outcome(r) == invoked(cfg.deep_view(), command@, root@),
    {
        let compiled: Vec<Hook> = match hooks::compile(cfg) {
            Ok(c) => c,
            Err(e) => return Err(e),
        };
        let pres: Vec<Firing> = hooks::run_matching(&compiled, command, Phase::Pre, root);
        let posts: Vec<Firing> = hooks::run_matching(&compiled, command, Phase::Post, root);
        Ok(Invocation::at_pre(pres, posts, 0))
    }

    /// What comes next.
    pub fn next(&self) -> (r: Next<'_>)
        ensures
            r.deep_view() == self.deep_view().next(),
    {
        proof {
            use_type_invariant(self);
        }
        match &self.stage {
            Stage::Pre(i) => Next::Run(&self.pres[*i].spawn),
            Stage::Verb => Next::Verb,
            Stage::Post(i) => Next::Run(&self.posts[*i].spawn),
            Stage::Over(e) => Next::Over(e),
        }
    }

    /// What is shown of the output of the hook that ran: standard output, then
    /// standard error.
    pub fn show(&self, reply: &Reply) -> (r: (String, String))
        ensures
            r.deep_view() == self.deep_view().shows(reply.deep_view()),
    {
        proof {
            use_type_invariant(self);
        }
        match &self.stage {
            Stage::Pre(i) => self.pres[*i].show(reply),
            Stage::Post(i) => self.posts[*i].show(reply),
            _ => (String::new(), String::new()),
        }
    }

    /// Takes what came of the hook that ran.
    pub fn replied(self, reply: &Reply) -> (r: Invocation)
        ensures
            r.deep_view() == self.deep_view().after(EventModel::Reply(reply.deep_view())),
    {
        proof {
            use_type_invariant(&self);
        }
        let Invocation { pres, posts, stage } = self;
        match stage {
            Stage::Pre(i) => match pres[i].hear(reply) {
                Ok(_) => Invocation::at_pre(pres, posts, i + 1),
                Err(why) => Invocation {
                    pres,
                    posts,
                    stage: Stage::Over(Ending::Failed(Some(why))),
                },
            },
            Stage::Post(i) => match posts[i].hear(reply) {
                Ok(_) => Invocation::at_post(pres, posts, i + 1),
                Err(why) => Invocation {
                    pres,
                    posts,
                    stage: Stage::Over(Ending::Failed(Some(why))),
                },
            },
            Stage::Verb => Invocation { pres, posts, stage: Stage::Verb },
            Stage::Over(e) => Invocation { pres, posts, stage: Stage::Over(e) },
        }
    }

    /// Takes how the verb ended.
    pub fn ended(self, ending: Ending) -> (r: Invocation)
        ensures
            r.deep_view() == self.deep_view().after(EventModel::Ended(ending.deep_view())),
    {
        proof {
            use_type_invariant(&self);
        }
        let Invocation { pres, posts, stage } = self;
        match stage {
            Stage::Verb => match ending {
                Ending::Fine => Invocation::at_post(pres, posts, 0),
                Ending::Failed(why) => Invocation {
                    pres,
                    posts,
                    stage: Stage::Over(Ending::Failed(why)),
                },
            },
            Stage::Pre(i) => Invocation { pres, posts, stage: Stage::Pre(i) },
            Stage::Post(i) => Invocation { pres, posts, stage: Stage::Post(i) },
            Stage::Over(e) => Invocation { pres, posts, stage: Stage::Over(e) },
        }
    }
}

// --- laws -------------------------------------------------------------------

/// Whether an event is a hook that succeeded.
pub open spec fn hook_succeeded(e: EventModel) -> bool {
    e is Reply && e->Reply_0.ok()
}

/// Where an invocation stands after events that were all waited for.
spec fn lined_up(s: InvocationModel, es: Seq<EventModel>) -> bool {
    let n = s.pres.len();
    match s.stage {
        StageModel::Pre(i) => {
            &&& es.len() == i < n
            &&& forall|j: int| 0 <= j < i ==> hook_succeeded(#[trigger] es[j])
        },
        StageModel::Verb => {
            &&& es.len() == n
            &&& forall|j: int| 0 <= j < n ==> hook_succeeded(#[trigger] es[j])
        },
        StageModel::Post(i) => {
            &&& 0 <= i < s.posts.len()
            &&& es.len() == n + 1 + i
            &&& forall|j: int| 0 <= j < es.len() && j != n ==> hook_succeeded(#[trigger] es[j])
            &&& es[n as int] == EventModel::Ended(EndingModel::Fine)
        },
        StageModel::Over(_) => true,
    }
}

/// Whether an event is of the kind that is waited for.
pub open spec fn awaited(s: InvocationModel, e: EventModel) -> bool {
    match s.next() {
        NextModel::Run(_) => e is Reply,
        NextModel::Verb => e is Ended,
        NextModel::Over(_) => false,
    }
}

/// Whether each event is of the kind that is waited for where it comes.
pub open spec fn answers(s: InvocationModel, es: Seq<EventModel>) -> bool
    decreases es.len(),
{
    es.len() == 0 || (answers(s, es.drop_last()) && awaited(
        s.after_all(es.drop_last()),
        es.last(),
    ))
}

proof fn lemma_lined_up(pres: Seq<FiringModel>, posts: Seq<FiringModel>, es: Seq<EventModel>)
    requires
        answers(InvocationModel::fresh(pres, posts), es),
    ensures
        ({
            let s = InvocationModel::fresh(pres, posts).after_all(es);
            s.pres == pres && s.posts == posts && lined_up(s, es)
        }),
    decreases es.len(),
{
    let start = InvocationModel::fresh(pres, posts);
    if es.len() > 0 {
        lemma_lined_up(pres, posts, es.drop_last());
        let s = start.after_all(es.drop_last());
        let t = start.after_all(es);
        assert(es =~= es.drop_last().push(es.last()));
        match s.stage {
            StageModel::Pre(i) => {
                assert(s.pres[i] == pres[i]);
                if heard(pres[i], es.last()->Reply_0) is Ok {
                    assert(hook_succeeded(es.last()));
                }
            },
            StageModel::Verb => {},
            StageModel::Post(i) => {
                if heard(posts[i], es.last()->Reply_0) is Ok {
                    assert(hook_succeeded(es.last()));
                }
            },
            StageModel::Over(_) => {},
        }
    }
}

/// **A failing pre-hook stops the verb**: the verb comes next only once every
/// matching pre-hook has run and succeeded.
pub proof fn law_verb_waits_for_pre_hooks(
    pres: Seq<FiringModel>,
    posts: Seq<FiringModel>,
    es: Seq<EventModel>,
)
    requires
        answers(InvocationModel::fresh(pres, posts), es),
        InvocationModel::fresh(pres, posts).after_all(es).next() is Verb,
    ensures
        es.len() == pres.len(),
        forall|i: int| 0 <= i < pres.len() ==> hook_succeeded(#[trigger] es[i]),
{
    lemma_lined_up(pres, posts, es);
}

/// **Post-hooks follow success**: a post-hook comes next only once every
/// pre-hook succeeded, the verb ended well, and every post-hook before it
/// succeeded.
pub proof fn law_post_hooks_follow_success(
    pres: Seq<FiringModel>,
    posts: Seq<FiringModel>,
    es: Seq<EventModel>,
    i: int,
)
    requires
        answers(InvocationModel::fresh(pres, posts), es),
        InvocationModel::fresh(pres, posts).after_all(es).stage == StageModel::Post(i),
    ensures
        es.len() == pres.len() + 1 + i,
        es[pres.len() as int] == EventModel::Ended(EndingModel::Fine),
        forall|j: int| 0 <= j < es.len() && j != pres.len() ==> hook_succeeded(#[trigger] es[j]),
{
    lemma_lined_up(pres, posts, es);
}

/// **A failing hook fails the command**: whatever the stage, a hook that does
/// not succeed ends the invocation as failed, with something to say.
pub proof fn law_failing_hook_fails_the_command(s: InvocationModel, r: ReplyModel)
    requires
        s.next() is Run,
        !r.ok(),
    ensures
        s.after(EventModel::Reply(r)).next() matches NextModel::Over(EndingModel::Failed(Some(_))),
{
}

/// **An invocation succeeds only as a whole**: it ends well only if all its
/// hooks ran and succeeded and the verb ended well.
pub proof fn law_fine_means_all_fine(
    pres: Seq<FiringModel>,
    posts: Seq<FiringModel>,
    es: Seq<EventModel>,
)
    requires
        answers(InvocationModel::fresh(pres, posts), es),
        InvocationModel::fresh(pres, posts).after_all(es).next() == NextModel::Over(
            EndingModel::Fine,
        ),
    ensures
        es.len() == pres.len() + 1 + posts.len(),
        es[pres.len() as int] == EventModel::Ended(EndingModel::Fine),
        forall|j: int| 0 <= j < es.len() && j != pres.len() ==> hook_succeeded(#[trigger] es[j]),
{
    let start = InvocationModel::fresh(pres, posts);
    assert(es.len() > 0);
    lemma_lined_up(pres, posts, es.drop_last());
    let s = start.after_all(es.drop_last());
    assert(es =~= es.drop_last().push(es.last()));
    match s.stage {
        StageModel::Pre(_) => {},
        StageModel::Verb => {},
        StageModel::Post(i) => {
            assert(hook_succeeded(es.last()));
        },
        StageModel::Over(_) => {},
    }
}

} // verus!
