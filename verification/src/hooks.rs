//! Workspace hooks: declarative actions that run before or after a verb.
//!
//! A hook has three fields:
//!
//!   - `match`: regex matched against the joined argv after `xen`. `xen sync
//!     main` produces the string `sync main`.
//!   - `exec`: shell command run at the workspace root when the pattern
//!     matches and the phase fires.
//!   - `when`: `pre` or `post` (default `post`). Pre-hooks run before the verb
//!     dispatches and abort it on non-zero exit. Post-hooks run after the verb
//!     completes successfully and surface their own non-zero exit as the
//!     command's exit code.
//!
//! Hooks are the symmetric pair to rules: rules concern what cascade is
//! allowed to do, hooks concern what should happen around a verb.

use crate::pattern::{self, fires, regex_refusal};
use crate::proc::{self, shell_not_spawned, shell_of, Reply, ReplyModel, Spawn, SpawnModel};
use crate::store::{HooksConfig, SharedHook, SharedHookModel};
use crate::text::{self, outcome, Text};
use crate::textmap::keys_of;
use vstd::prelude::*;

verus! {

// --- phases -----------------------------------------------------------------

/// Which side of the verb a hook fires on.
#[derive(Clone, Copy, Debug, PartialEq, Eq, Structural)]
pub enum Phase {
    /// Before the verb dispatches. Non-zero exit aborts the verb.
    Pre,
    /// After the verb completes successfully. Non-zero exit surfaces as the
    /// command's overall exit code.
    Post,
}

impl DeepView for Phase {
    type V = Phase;

    open spec fn deep_view(&self) -> Phase {
        *self
    }
}

/// The phase that a text names.
pub open spec fn phase_named(s: Text) -> Result<Phase, Text> {
    if s == "pre"@ {
        Ok(Phase::Pre)
    } else if s == "post"@ {
        Ok(Phase::Post)
    } else {
        Err("hook `when` must be \"pre\" or \"post\", got "@ + text::debug_text(s))
    }
}

impl Phase {
    /// The phase's name.
    pub open spec fn text(self) -> Text {
        match self {
            Phase::Pre => "pre"@,
            Phase::Post => "post"@,
        }
    }

    /// The phase's name.
    pub fn as_str(self) -> (r: &'static str)
        ensures
            r@ == self.text(),
    {
        match self {
            Phase::Pre => "pre",
            Phase::Post => "post",
        }
    }

    /// Parses a phase's name.
    pub fn parse(s: &str) -> (r: Result<Phase, String>)
        ensures
            outcome(r) == phase_named(s@),
    {
        if text::same(s, "pre") {
            Ok(Phase::Pre)
        } else if text::same(s, "post") {
            Ok(Phase::Post)
        } else {
            Err(
                text::cat(
                    "hook `when` must be \"pre\" or \"post\", got ",
                    text::quoted(s).as_str(),
                ),
            )
        }
    }
}

/// **A phase is what its name says**: parsing a phase's name gives the phase.
pub proof fn law_phase_round_trip(p: Phase)
    ensures
        phase_named(p.text()) == Ok::<Phase, Text>(p),
{
    reveal_strlit("pre");
    reveal_strlit("post");
    assert("pre"@.len() != "post"@.len());
}

// --- compiled hooks ---------------------------------------------------------

/// A hook that is ready to fire: its pattern compiles.
#[derive(Debug)]
pub struct Hook {
    pub name: String,
    /// The regex, as text.
    pub pattern: String,
    /// The shell command.
    pub command: String,
    pub phase: Phase,
}

/// What a `Hook` stands for.
#[verifier::ext_equal]
pub struct HookModel {
    pub name: Text,
    pub pattern: Text,
    pub command: Text,
    pub phase: Phase,
}

impl DeepView for Hook {
    type V = HookModel;

    open spec fn deep_view(&self) -> HookModel {
        HookModel {
            name: self.name@,
            pattern: self.pattern@,
            command: self.command@,
            phase: self.phase,
        }
    }
}

/// The phase of an entry: `post` where it names none.
pub open spec fn phase_of(when: Option<Text>) -> Result<Phase, Text> {
    match when {
        Some(s) => phase_named(s),
        None => Ok(Phase::Post),
    }
}

/// The hook that an entry gives, where `refusal` is what the regex compiler
/// objects to in its pattern, or why it gives none.
pub open spec fn hooked(name: Text, raw: SharedHookModel, refusal: Option<Text>) -> Result<
    HookModel,
    Text,
> {
    if !raw.is_complete() {
        Err(
            "hook "@ + text::debug_text(name) + " is incomplete (need both `match` and `exec`)"@,
        )
    } else {
        match refusal {
            Some(why) => Err(
                "hook "@ + text::debug_text(name) + ": invalid regex "@ + text::debug_text(
                    raw.match_pattern.unwrap(),
                ) + ": "@ + why,
            ),
            None => match phase_of(raw.when) {
                Err(why) => Err(
                    "hook "@ + text::debug_text(name) + ": invalid `when`: "@ + why,
                ),
                Ok(phase) => Ok(
                    HookModel {
                        name,
                        pattern: raw.match_pattern.unwrap(),
                        command: raw.exec_command.unwrap(),
                        phase,
                    },
                ),
            },
        }
    }
}

impl Hook {
    /// Builds a hook from an entry and the verdict on its pattern.
    pub fn with_verdict(name: &str, raw: &SharedHook, verdict: Result<(), String>) -> (r: Result<
        Hook,
        String,
    >)
        ensures
            outcome(r) == hooked(
                name@,
                raw.deep_view(),
                match verdict {
                    Ok(_) => None,
                    Err(e) => Some(e@),
                },
            ),
    {
        match (&raw.match_pattern, &raw.exec_command) {
            (Some(pattern), Some(command)) => {
                let mut e: String = text::cat("hook ", text::quoted(name).as_str());
                if let Err(why) = verdict {
                    e.append(": invalid regex ");
                    e.append(text::quoted(pattern.as_str()).as_str());
                    e.append(": ");
                    e.append(why.as_str());
                    return Err(e);
                }
                let phase: Phase = match &raw.when {
                    Some(s) => match Phase::parse(s.as_str()) {
                        Ok(p) => p,
                        Err(why) => {
                            e.append(": invalid `when`: ");
                            e.append(why.as_str());
                            return Err(e);
                        },
                    },
                    None => Phase::Post,
                };
                Ok(
                    Hook {
                        name: name.to_owned(),
                        pattern: pattern.clone(),
                        command: command.clone(),
                        phase,
                    },
                )
            },
            _ => {
                let mut e: String = text::cat("hook ", text::quoted(name).as_str());
                e.append(" is incomplete (need both `match` and `exec`)");
                Err(e)
            },
        }
    }

    /// Builds a hook from an entry. A malformed pattern fails here, once, and
    /// not silently every time the hook would have fired.
    pub fn from_shared(name: &str, raw: &SharedHook) -> (r: Result<Hook, String>)
        ensures
            outcome(r) == hooked(
                name@,
                raw.deep_view(),
                regex_refusal(raw.deep_view().match_pattern.unwrap()),
            ),
    {
        match &raw.match_pattern {
            Some(p) => Hook::with_verdict(name, raw, pattern::regex_new(p.as_str())),
            None => Hook::with_verdict(name, raw, Ok(())),
        }
    }
}

/// The hooks of the entries `ks`, in order, or the first objection. An entry
/// that is not complete is inactive.
pub open spec fn compiled(m: Map<Text, SharedHookModel>, ks: Seq<Text>) -> Result<
    Seq<HookModel>,
    Text,
>
    decreases ks.len(),
{
    if ks.len() == 0 {
        Ok(Seq::empty())
    } else {
        match compiled(m, ks.drop_last()) {
            Err(e) => Err(e),
            Ok(done) => {
                let raw = m[ks.last()];
                if !raw.is_complete() {
                    Ok(done)
                } else {
                    match hooked(ks.last(), raw, regex_refusal(raw.match_pattern.unwrap())) {
                        Err(e) => Err(e),
                        Ok(h) => Ok(done.push(h)),
                    }
                }
            },
        }
    }
}

proof fn lemma_compiled_stops(m: Map<Text, SharedHookModel>, ks: Seq<Text>, i: int)
    requires
        0 <= i <= ks.len(),
        compiled(m, ks.take(i)) is Err,
    ensures
        compiled(m, ks) == compiled(m, ks.take(i)),
    decreases ks.len(),
{
    if i < ks.len() {
        assert(ks.drop_last().take(i) =~= ks.take(i));
        lemma_compiled_stops(m, ks.drop_last(), i);
    } else {
        assert(ks.take(i) =~= ks);
    }
}

/// Compiles every hook in the config. Skips a hook that is not yet complete,
/// so that a hook can be configured one field at a time: hooks are consulted
/// around every verb, the very commands that define them included.
pub fn compile(cfg: &HooksConfig) -> (r: Result<Vec<Hook>, String>)
    ensures
        outcome(r) == compiled(cfg.deep_view(), keys_of(cfg.deep_view())),
{
    let ghost m = cfg.deep_view();
    let ghost q = keys_of(m);
    let n: usize = cfg.hooks.len();
    let mut out: Vec<Hook> = Vec::new();
    assert(out.deep_view() =~= Seq::empty());
    for i in 0..n
        invariant
            m == cfg.deep_view(),
            q == keys_of(m),
            n == q.len(),
            compiled(m, q.take(i as int)) == Ok::<Seq<HookModel>, Text>(out.deep_view()),
    {
        let ghost done = out.deep_view();
        let raw: &SharedHook = cfg.hooks.value_at(i);
        assert(q.take(i + 1).drop_last() =~= q.take(i as int));
        if raw.is_complete() {
            match Hook::from_shared(cfg.hooks.key_at(i), raw) {
                Err(e) => {
                    proof {
                        lemma_compiled_stops(m, q, i + 1);
                    }
                    return Err(e);
                },
                Ok(hook) => {
                    out.push(hook);
                    assert(out.deep_view() =~= done.push(hook.deep_view()));
                },
            }
        }
    }
    assert(q.take(n as int) =~= q);
    Ok(out)
}

/// **A malformed pattern fails at load time**: every hook of a config that
/// compiles has a pattern that the regex compiler takes.
pub proof fn law_compiled_patterns_are_valid(m: Map<Text, SharedHookModel>, ks: Seq<Text>)
    ensures
        compiled(m, ks) matches Ok(hs) ==> forall|i: int|
            0 <= i < hs.len() ==> regex_refusal((#[trigger] hs[i]).pattern) is None,
    decreases ks.len(),
{
    if ks.len() > 0 {
        law_compiled_patterns_are_valid(m, ks.drop_last());
    }
}

/// **A half-defined hook is inactive**: a config in which no hook is complete
/// compiles, to no hook at all, whatever the fields hold.
pub proof fn law_incomplete_hooks_are_inactive(m: Map<Text, SharedHookModel>, ks: Seq<Text>)
    requires
        forall|i: int| 0 <= i < ks.len() ==> !(#[trigger] m[ks[i]]).is_complete(),
    ensures
        compiled(m, ks) == Ok::<Seq<HookModel>, Text>(Seq::empty()),
    decreases ks.len(),
{
    if ks.len() > 0 {
        assert forall|i: int| 0 <= i < ks.drop_last().len() implies !(
        #[trigger] m[ks.drop_last()[i]]).is_complete() by {
            assert(m[ks[i]] == m[ks.drop_last()[i]]);
        }
        law_incomplete_hooks_are_inactive(m, ks.drop_last());
        assert(m[ks[ks.len() - 1]] == m[ks.last()]);
    }
}

// --- firings ----------------------------------------------------------------

/// One hook that is to run.
#[derive(Debug)]
pub struct Firing {
    /// The hook's process.
    pub spawn: Spawn,
    /// What is said if it cannot be spawned.
    pub lost: String,
    /// The line above its output.
    pub label: String,
    /// What is said of a non-zero exit, up to the status.
    pub failure: String,
}

/// What a `Firing` stands for.
#[verifier::ext_equal]
pub struct FiringModel {
    pub spawn: SpawnModel,
    pub lost: Text,
    pub label: Text,
    pub failure: Text,
}

impl DeepView for Firing {
    type V = FiringModel;

    open spec fn deep_view(&self) -> FiringModel {
        FiringModel {
            spawn: self.spawn.deep_view(),
            lost: self.lost@,
            label: self.label@,
            failure: self.failure@,
        }
    }
}

/// The firing of one hook on a command.
pub open spec fn firing_of(h: HookModel, command: Text, root: Text) -> FiringModel {
    FiringModel {
        spawn: shell_of(root, h.command, seq![("XEN_COMMAND"@, command)]),
        lost: shell_not_spawned(root, h.command),
        label: "["@ + h.phase.text() + " "@ + h.name + "]\n"@,
        failure: "hook "@ + text::debug_text(h.name) + " ("@ + h.phase.text()
            + ") failed: exit "@,
    }
}

/// The firings of the hooks of one phase that match `command`, in order.
pub open spec fn firings_of(hooks: Seq<HookModel>, command: Text, phase: Phase, root: Text) -> Seq<
    FiringModel,
>
    decreases hooks.len(),
{
    if hooks.len() == 0 {
        Seq::empty()
    } else if hooks.last().phase == phase && fires(hooks.last().pattern, command) {
        firings_of(hooks.drop_last(), command, phase, root).push(
            firing_of(hooks.last(), command, root),
        )
    } else {
        firings_of(hooks.drop_last(), command, phase, root)
    }
}

fn firing(hook: &Hook, command: &str, root: &str) -> (r: Firing)
    ensures
        r.deep_view() == firing_of(hook.deep_view(), command@, root@),
{
    let mut env: Vec<(String, String)> = Vec::new();
    env.push(("XEN_COMMAND".to_owned(), command.to_owned()));
    assert(env.deep_view() =~= seq![("XEN_COMMAND"@, command@)]);
    let spawn: Spawn = proc::sh_env(root, hook.command.as_str(), &env);
    let lost: String = proc::shell_lost(root, hook.command.as_str());
    let mut label: String = text::cat("[", hook.phase.as_str());
    label.append(" ");
    label.append(hook.name.as_str());
    label.append("]\n");
    let mut failure: String = text::cat("hook ", text::quoted(hook.name.as_str()).as_str());
    failure.append(" (");
    failure.append(hook.phase.as_str());
    failure.append(") failed: exit ");
    Firing { spawn, lost, label, failure }
}

/// The hooks to run, in order: those of the phase whose pattern matches
/// `command`. Each runs at the workspace root with `XEN_COMMAND` exported.
pub fn run_matching(hooks: &Vec<Hook>, command: &str, phase: Phase, workspace_root: &str) -> (r:
    Vec<Firing>)
    ensures
        r.deep_view() == firings_of(hooks.deep_view(), command@, phase, workspace_root@),
{
    let ghost q = hooks.deep_view();
    let mut out: Vec<Firing> = Vec::new();
    assert(out.deep_view() =~= firings_of(q.take(0), command@, phase, workspace_root@));
    for i in 0..hooks.len()
        invariant
            q == hooks.deep_view(),
            out.deep_view() == firings_of(q.take(i as int), command@, phase, workspace_root@),
    {
        let ghost done = out.deep_view();
        assert(q.take(i + 1).drop_last() =~= q.take(i as int));
        if hooks[i].phase == phase && pattern::fires_on(hooks[i].pattern.as_str(), command) {
            let f: Firing = firing(&hooks[i], command, workspace_root);
            out.push(f);
            assert(out.deep_view() =~= done.push(f.deep_view()));
        }
    }
    assert(q.take(hooks@.len() as int) =~= q);
    out
}

/// A hook's output under its label; nothing where there is none.
pub open spec fn labelled(label: Text, s: Text) -> Text {
    if s.len() == 0 {
        Seq::empty()
    } else {
        label + s
    }
}

/// Whether a hook succeeded, and otherwise what is said of it.
pub open spec fn heard(f: FiringModel, reply: ReplyModel) -> Result<(), Text> {
    match reply {
        ReplyModel::Lost(why) => Err(f.lost + ": "@ + why),
        ReplyModel::Ran(o) => if o.ok() {
            Ok(())
        } else {
            Err(f.failure + text::signed_decimal(o.status))
        },
    }
}

/// What is shown of a hook's output, on both streams.
pub open spec fn shown(f: FiringModel, reply: ReplyModel) -> (Text, Text) {
    match reply {
        ReplyModel::Lost(_) => (Seq::empty(), Seq::empty()),
        ReplyModel::Ran(o) => (labelled(f.label, o.stdout), labelled(f.label, o.stderr)),
    }
}

fn put_label(label: &str, s: &str) -> (r: String)
    ensures
        r@ == labelled(label@, s@),
{
    if s.unicode_len() == 0 {
        String::new()
    } else {
        text::cat(label, s)
    }
}

impl Firing {
    /// Takes the hook's outcome.
    pub fn hear(&self, reply: &Reply) -> (r: Result<(), String>)
        ensures
            outcome(r) == heard(self.deep_view(), reply.deep_view()),
    {
        match reply {
            Reply::Lost(why) => {
                let mut e: String = text::cat(self.lost.as_str(), ": ");
                e.append(why.as_str());
                Err(e)
            },
            Reply::Ran(o) => if o.ok() {
                Ok(())
            } else {
                Err(text::cat(self.failure.as_str(), text::signed_number(o.status).as_str()))
            },
        }
    }

    /// What is shown of the hook's output: standard output, then standard
    /// error, each under the hook's label.
    pub fn show(&self, reply: &Reply) -> (r: (String, String))
        ensures
            r.deep_view() == shown(self.deep_view(), reply.deep_view()),
    {
        match reply {
            Reply::Lost(_) => (String::new(), String::new()),
            Reply::Ran(o) => (
                put_label(self.label.as_str(), o.stdout.as_str()),
                put_label(self.label.as_str(), o.stderr.as_str()),
            ),
        }
    }
}

} // verus!
