//! What hooks are for, and the invocation that they wrap.

use crate::hooks::{
    compiled, firing_of, firings_of, heard, hooked, phase_of, shown, FiringModel, HookModel, Phase,
};
use crate::invocation::{invoked, EndingModel, EventModel, InvocationModel, NextModel};
use crate::pattern::{regex_matches, regex_refusal};
use crate::proc::{OutputModel, ReplyModel};
use crate::store::SharedHookModel;
use crate::text::{debug_text, signed_decimal, Text};
use crate::textmap::keys_of;
use vstd::prelude::*;

verus! {

/// **`when` is `pre` or `post`, and `post` where it is left out**; anything else
/// is refused.
pub proof fn law_phase(s: Text)
    ensures
        phase_of(None) == Ok::<Phase, Text>(Phase::Post),
        phase_of(Some("pre"@)) == Ok::<Phase, Text>(Phase::Pre),
        phase_of(Some("post"@)) == Ok::<Phase, Text>(Phase::Post),
        s != "pre"@ && s != "post"@ ==> phase_of(Some(s)) == Err::<Phase, Text>(
            "hook `when` must be \"pre\" or \"post\", got "@ + debug_text(s),
        ),
        Phase::Pre.text() == "pre"@,
        Phase::Post.text() == "post"@,
{
    reveal_strlit("pre");
    reveal_strlit("post");
    assert("pre"@.len() != "post"@.len());
}

/// **A hook is what its entry says**: an entry gives one if and only if it has
/// both a pattern and a command, the pattern compiles, and `when` is a phase.
/// What is wrong is named.
pub proof fn law_hook_is_what_its_entry_says(
    name: Text,
    raw: SharedHookModel,
    refusal: Option<Text>,
)
    ensures
        hooked(name, raw, refusal) is Ok <==> raw.match_pattern is Some && raw.exec_command is Some
            && refusal is None && phase_of(raw.when) is Ok,
        hooked(name, raw, refusal) matches Ok(h) ==> {
            &&& h.name == name
            &&& Some(h.pattern) == raw.match_pattern
            &&& Some(h.command) == raw.exec_command
            &&& phase_of(raw.when) == Ok::<Phase, Text>(h.phase)
        },
        raw.match_pattern is None || raw.exec_command is None ==> hooked(name, raw, refusal)
            == Err::<HookModel, Text>(
            "hook "@ + debug_text(name) + " is incomplete (need both `match` and `exec`)"@,
        ),
        raw.match_pattern is Some && raw.exec_command is Some ==> (refusal matches Some(why)
            ==> hooked(name, raw, refusal) == Err::<HookModel, Text>(
            "hook "@ + debug_text(name) + ": invalid regex "@ + debug_text(raw.match_pattern->0)
                + ": "@ + why,
        )),
        raw.match_pattern is Some && raw.exec_command is Some && refusal is None ==> (phase_of(
            raw.when,
        ) matches Err(why) ==> hooked(name, raw, refusal) == Err::<HookModel, Text>(
            "hook "@ + debug_text(name) + ": invalid `when`: "@ + why,
        )),
{
}

/// **Every complete hook is compiled, in order**: a config compiles if and only
/// if every complete entry gives a hook, and it then has one hook for each of
/// them, with the entry's name, pattern, command and phase.
pub proof fn law_every_complete_hook_is_compiled(m: Map<Text, SharedHookModel>, ks: Seq<Text>)
    ensures
        ({
            let complete = ks.filter(
                |k: Text| m[k].match_pattern is Some && m[k].exec_command is Some,
            );
            compiled(m, ks) matches Ok(hs) ==> hs.len() == complete.len() && forall|i: int|
                #![trigger hs[i]]
                0 <= i < hs.len() ==> hs[i].name == complete[i] && Some(hs[i].pattern)
                    == m[complete[i]].match_pattern && Some(hs[i].command)
                    == m[complete[i]].exec_command && phase_of(m[complete[i]].when) == Ok::<
                    Phase,
                    Text,
                >(hs[i].phase)
        }),
        compiled(m, ks) is Ok <==> forall|i: int|
            #![trigger ks[i]]
            0 <= i < ks.len() && m[ks[i]].match_pattern is Some && m[ks[i]].exec_command is Some
                ==> regex_refusal(m[ks[i]].match_pattern->0) is None && phase_of(
                m[ks[i]].when,
            ) is Ok,
    decreases ks.len(),
{
    reveal(Seq::filter);
    if ks.len() > 0 {
        let init = ks.drop_last();
        law_every_complete_hook_is_compiled(m, init);
        assert forall|i: int| 0 <= i < init.len() implies init[i] == ks[i] by {}
        assert(ks[ks.len() - 1] == ks.last());
        if compiled(m, ks) is Ok {
            assert forall|i: int|
                #![trigger ks[i]]
                0 <= i < ks.len() && m[ks[i]].match_pattern is Some
                    && m[ks[i]].exec_command is Some implies regex_refusal(
                m[ks[i]].match_pattern->0,
            ) is None && phase_of(m[ks[i]].when) is Ok by {
                if i < init.len() {
                    assert(init[i] == ks[i]);
                }
            }
        }
    }
}

/// **Every hook of the phase whose pattern matches fires, and no other does**,
/// in order: each is `sh -c` of its command at the workspace root, with the
/// command that was invoked in its environment.
pub proof fn law_every_matching_hook_fires(
    hooks: Seq<HookModel>,
    command: Text,
    phase: Phase,
    root: Text,
)
    ensures
        ({
            let say = hooks.filter(
                |h: HookModel| h.phase == phase && regex_refusal(h.pattern) is None
                    && regex_matches(h.pattern, command),
            );
            let fs = firings_of(hooks, command, phase, root);
            &&& fs.len() == say.len()
            &&& forall|i: int|
                #![trigger fs[i]]
                0 <= i < fs.len() ==> {
                    &&& fs[i].spawn.argv == seq!["sh"@, "-c"@, say[i].command]
                    &&& fs[i].spawn.dir == root
                    &&& fs[i].spawn.stdin_null
                    &&& fs[i].spawn.env == seq![
                        ("GIT_TERMINAL_PROMPT"@, "0"@),
                        ("XEN_COMMAND"@, command),
                    ]
                    &&& fs[i].lost == "spawn sh -c "@ + debug_text(say[i].command) + " in "@ + root
                    &&& fs[i].label == "["@ + phase.text() + " "@ + say[i].name + "]\n"@
                    &&& fs[i].failure == "hook "@ + debug_text(say[i].name) + " ("@ + phase.text()
                        + ") failed: exit "@
                }
        }),
    decreases hooks.len(),
{
    reveal(Seq::filter);
    if hooks.len() > 0 {
        law_every_matching_hook_fires(hooks.drop_last(), command, phase, root);
        let h = hooks.last();
        let f = firing_of(h, command, root);
        assert(f.spawn.env =~= seq![
            ("GIT_TERMINAL_PROMPT"@, "0"@),
            ("XEN_COMMAND"@, command),
        ]);
    }
}

/// **A hook goes by its exit status**: zero is success; anything else is told
/// with the status, and a hook that could not be spawned with the reason.
pub proof fn law_hook_goes_by_the_exit_status(f: FiringModel, o: OutputModel, why: Text)
    ensures
        heard(f, ReplyModel::Ran(o)) is Ok <==> o.status == 0,
        o.status != 0 ==> heard(f, ReplyModel::Ran(o)) == Err::<(), Text>(
            f.failure + signed_decimal(o.status),
        ),
        heard(f, ReplyModel::Lost(why)) == Err::<(), Text>(f.lost + ": "@ + why),
{
}

/// **What a hook wrote is shown under its label**, each stream by itself; what
/// is empty is not shown.
pub proof fn law_hook_output(f: FiringModel, o: OutputModel, why: Text)
    ensures
        o.stdout.len() > 0 ==> shown(f, ReplyModel::Ran(o)).0 == f.label + o.stdout,
        o.stderr.len() > 0 ==> shown(f, ReplyModel::Ran(o)).1 == f.label + o.stderr,
        o.stdout.len() == 0 ==> shown(f, ReplyModel::Ran(o)).0.len() == 0,
        o.stderr.len() == 0 ==> shown(f, ReplyModel::Ran(o)).1.len() == 0,
        shown(f, ReplyModel::Lost(why)).0.len() == 0,
        shown(f, ReplyModel::Lost(why)).1.len() == 0,
{
}

/// **An invocation wraps the verb in its own hooks**: the pre-hooks and the
/// post-hooks of the config that match the command.
pub proof fn law_invocation_has_its_hooks(
    m: Map<Text, SharedHookModel>,
    command: Text,
    root: Text,
)
    ensures
        match compiled(m, keys_of(m)) {
            Err(e) => invoked(m, command, root) == Err::<InvocationModel, Text>(e),
            Ok(hs) => invoked(m, command, root) matches Ok(s) && s.pres == firings_of(
                hs,
                command,
                Phase::Pre,
                root,
            ) && s.posts == firings_of(hs, command, Phase::Post, root) && s == (
            InvocationModel::fresh(s.pres, s.posts)),
        },
{
}

/// The events of an invocation in which everything goes well: `k` steps of it.
pub open spec fn going_well(pres: nat, k: nat) -> Seq<EventModel> {
    Seq::new(
        k,
        |i: int|
            if i == pres {
                EventModel::Ended(EndingModel::Fine)
            } else {
                EventModel::Reply(
                    ReplyModel::Ran(
                        OutputModel { status: 0, stdout: Seq::empty(), stderr: Seq::empty() },
                    ),
                )
            },
    )
}

/// **Each hook runs once, in order, around the verb**: where all goes well, the
/// pre-hooks run one after the other, then the verb, then the post-hooks one
/// after the other, and then the invocation is over, and well.
pub proof fn law_hooks_run_in_order(pres: Seq<FiringModel>, posts: Seq<FiringModel>, k: nat)
    requires
        k <= pres.len() + 1 + posts.len(),
    ensures
        ({
            let s = InvocationModel::fresh(pres, posts).after_all(going_well(pres.len(), k));
            &&& s.pres == pres
            &&& s.posts == posts
            &&& s.next() == (if k < pres.len() {
                NextModel::Run(pres[k as int].spawn)
            } else if k == pres.len() {
                NextModel::Verb
            } else if k < pres.len() + 1 + posts.len() {
                NextModel::Run(posts[k - pres.len() - 1].spawn)
            } else {
                NextModel::Over(EndingModel::Fine)
            })
            &&& s.firing() == (if k < pres.len() {
                Some(pres[k as int])
            } else if pres.len() < k < pres.len() + 1 + posts.len() {
                Some(posts[k - pres.len() - 1])
            } else {
                None
            })
        }),
    decreases k,
{
    lemma_in_order(pres, posts, k);
}

proof fn lemma_in_order(pres: Seq<FiringModel>, posts: Seq<FiringModel>, k: nat)
    requires
        k <= pres.len() + 1 + posts.len(),
    ensures
        ({
            let start = InvocationModel::fresh(pres, posts);
            let s = start.after_all(going_well(pres.len(), k));
            s == (if k <= pres.len() {
                start.at_pre(k as int)
            } else {
                start.at_post(k - pres.len() - 1)
            })
        }),
    decreases k,
{
    let es = going_well(pres.len(), k);
    if k > 0 {
        lemma_in_order(pres, posts, (k - 1) as nat);
        assert(es.drop_last() =~= going_well(pres.len(), (k - 1) as nat));
    }
}

/// **The first failure ends the invocation, with what is said of it**: of a
/// hook, what was heard of it, and of the verb, what the verb left to say.
pub proof fn law_first_failure_ends_it(
    s: InvocationModel,
    f: FiringModel,
    r: ReplyModel,
    why: Option<Text>,
)
    ensures
        s.firing() == Some(f) && !r.ok() ==> heard(f, r) is Err && s.after(
            EventModel::Reply(r),
        ).next() == NextModel::Over(EndingModel::Failed(Some(heard(f, r)->Err_0))),
        s.next() is Verb ==> s.after(EventModel::Ended(EndingModel::Failed(why))).next()
            == NextModel::Over(EndingModel::Failed(why)),
{
}

/// **What was not waited for changes nothing.**
pub proof fn law_only_answers_count(s: InvocationModel, e: EventModel)
    ensures
        !(match s.next() {
            NextModel::Run(_) => e is Reply,
            NextModel::Verb => e is Ended,
            NextModel::Over(_) => false,
        }) ==> s.after(e) == s,
{
}

/// **What is shown is the output of the hook that ran**, and of nothing else.
pub proof fn law_shows_the_hook_that_ran(s: InvocationModel, f: FiringModel, r: ReplyModel)
    ensures
        s.firing() == Some(f) ==> s.shows(r) == shown(f, r),
        s.firing() is None ==> s.shows(r).0.len() == 0 && s.shows(r).1.len() == 0,
{
}

} // verus!
