//! Workspace rules: declarative gates on cascade commands.
//!
//! A rule has three fields:
//!
//!   - `pattern`: regex matched against the joined cascade command.
//!   - `predicate`: shell command run in each candidate repo. Exit 0 allows,
//!     anything else denies. Gets `XEN_REPO` and `XEN_COMMAND`.
//!   - `message`: surfaced in the error when the predicate denies.
//!
//! Rules fire before any user command spawns. If any rule's predicate denies
//! in any repo, the entire cascade is aborted before doing anything.
//!
//! Default rules are seeded into a fresh workspace by the first `portal add`.
//! They are stored like any other rule: visible, editable, removable.

use crate::pattern::{self, fires, regex_refusal};
use crate::proc::{self, shell_not_spawned, shell_of, Reply, ReplyModel, Spawn, SpawnModel};
use crate::store::{RulesConfig, SharedRule, SharedRuleModel};
use crate::text::{self, outcome, Text};
use crate::textmap::{keys_of, TextMap};
use vstd::prelude::*;

verus! {

// --- compiled rules ---------------------------------------------------------

/// A rule that is ready to fire: its pattern compiles.
#[derive(Debug)]
pub struct Rule {
    pub name: String,
    /// The regex, as text.
    pub pattern: String,
    pub predicate: String,
    pub message: String,
}

/// What a `Rule` stands for.
#[verifier::ext_equal]
pub struct RuleModel {
    pub name: Text,
    pub pattern: Text,
    pub predicate: Text,
    pub message: Text,
}

impl DeepView for Rule {
    type V = RuleModel;

    open spec fn deep_view(&self) -> RuleModel {
        RuleModel {
            name: self.name@,
            pattern: self.pattern@,
            predicate: self.predicate@,
            message: self.message@,
        }
    }
}

/// The rule that a complete entry gives.
pub open spec fn rule_of(name: Text, raw: SharedRuleModel) -> RuleModel {
    RuleModel {
        name,
        pattern: raw.pattern.unwrap(),
        predicate: raw.predicate.unwrap(),
        message: match raw.message {
            Some(m) => m,
            None => "rule "@ + text::debug_text(name) + " denied this command"@,
        },
    }
}

/// The rule that an entry gives, where `refusal` is what the regex compiler
/// objects to in its pattern, or why it gives none.
pub open spec fn ruled(name: Text, raw: SharedRuleModel, refusal: Option<Text>) -> Result<
    RuleModel,
    Text,
> {
    if !raw.is_complete() {
        Err(
            "rule "@ + text::debug_text(name)
                + " is incomplete (need both `pattern` and `predicate`)"@,
        )
    } else {
        match refusal {
            Some(why) => Err(
                "rule "@ + text::debug_text(name) + ": invalid regex "@ + text::debug_text(
                    raw.pattern.unwrap(),
                ) + ": "@ + why,
            ),
            None => Ok(rule_of(name, raw)),
        }
    }
}

impl Rule {
    /// Builds a rule from an entry and the verdict on its pattern.
    pub fn with_verdict(name: &str, raw: &SharedRule, verdict: Result<(), String>) -> (r: Result<
        Rule,
        String,
    >)
        ensures
            outcome(r) == ruled(
                name@,
                raw.deep_view(),
                match verdict {
                    Ok(_) => None,
                    Err(e) => Some(e@),
                },
            ),
    {
        match (&raw.pattern, &raw.predicate) {
            (Some(pattern), Some(predicate)) => {
                if let Err(why) = verdict {
                    let mut e: String = text::cat("rule ", text::quoted(name).as_str());
                    e.append(": invalid regex ");
                    e.append(text::quoted(pattern.as_str()).as_str());
                    e.append(": ");
                    e.append(why.as_str());
                    return Err(e);
                }
                let message: String = match &raw.message {
                    Some(m) => m.clone(),
                    None => {
                        let mut m: String = text::cat("rule ", text::quoted(name).as_str());
                        m.append(" denied this command");
                        m
                    },
                };
                Ok(
                    Rule {
                        name: name.to_owned(),
                        pattern: pattern.clone(),
                        predicate: predicate.clone(),
                        message,
                    },
                )
            },
            _ => {
                let mut e: String = text::cat("rule ", text::quoted(name).as_str());
                e.append(" is incomplete (need both `pattern` and `predicate`)");
                Err(e)
            },
        }
    }

    /// Builds a rule from an entry. A malformed pattern fails here, once, and
    /// not silently for every cascade.
    pub fn from_shared(name: &str, raw: &SharedRule) -> (r: Result<Rule, String>)
        ensures
            outcome(r) == ruled(
                name@,
                raw.deep_view(),
                regex_refusal(raw.deep_view().pattern.unwrap()),
            ),
    {
        match &raw.pattern {
            Some(p) => Rule::with_verdict(name, raw, pattern::regex_new(p.as_str())),
            None => Rule::with_verdict(name, raw, Ok(())),
        }
    }
}

/// Whether an entry is a rule that its author is still in the middle of: it
/// has neither pattern nor predicate.
pub open spec fn unfinished(raw: SharedRuleModel) -> bool {
    raw.pattern is None && raw.predicate is None
}

/// The rules of the entries `ks`, in order, or the first objection.
pub open spec fn compiled(m: Map<Text, SharedRuleModel>, ks: Seq<Text>) -> Result<
    Seq<RuleModel>,
    Text,
>
    decreases ks.len(),
{
    if ks.len() == 0 {
        Ok(Seq::empty())
    } else {
        match compiled(m, ks.drop_last()) {
            Err(e) => Err(e),
            Ok(done) => {
                let raw = m[ks.last()];
                if unfinished(raw) {
                    Ok(done)
                } else {
                    match ruled(ks.last(), raw, regex_refusal(raw.pattern.unwrap())) {
                        Err(e) => Err(e),
                        Ok(r) => Ok(done.push(r)),
                    }
                }
            },
        }
    }
}

proof fn lemma_compiled_stops(m: Map<Text, SharedRuleModel>, ks: Seq<Text>, i: int)
    requires
        0 <= i <= ks.len(),
        compiled(m, ks.take(i)) is Err,
    ensures
        compiled(m, ks) == compiled(m, ks.take(i)),
    decreases ks.len(),
{
    if i < ks.len() {
        assert(ks.drop_last().take(i) =~= ks.take(i));
        lemma_compiled_stops(m, ks.drop_last(), i);
    } else {
        assert(ks.take(i) =~= ks);
    }
}

/// Compiles every rule in the config. Skips a rule with neither pattern nor
/// predicate: a half-defined rule that the user is in the middle of editing.
pub fn compile(cfg: &RulesConfig) -> (r: Result<Vec<Rule>, String>)
    ensures
        outcome(r) == compiled(cfg.deep_view(), keys_of(cfg.deep_view())),
{
    let ghost m = cfg.deep_view();
    let ghost q = keys_of(m);
    let n: usize = cfg.rules.len();
    let mut out: Vec<Rule> = Vec::new();
    assert(out.deep_view() =~= Seq::empty());
    for i in 0..n
        invariant
            m == cfg.deep_view(),
            q == keys_of(m),
            n == q.len(),
            compiled(m, q.take(i as int)) == Ok::<Seq<RuleModel>, Text>(out.deep_view()),
    {
        let ghost done = out.deep_view();
        let raw: &SharedRule = cfg.rules.value_at(i);
        assert(q.take(i + 1).drop_last() =~= q.take(i as int));
        if raw.pattern.is_some() || raw.predicate.is_some() {
            match Rule::from_shared(cfg.rules.key_at(i), raw) {
                Err(e) => {
                    proof {
                        lemma_compiled_stops(m, q, i + 1);
                    }
                    return Err(e);
                },
                Ok(rule) => {
                    out.push(rule);
                    assert(out.deep_view() =~= done.push(rule.deep_view()));
                },
            }
        }
    }
    assert(q.take(n as int) =~= q);
    Ok(out)
}

/// **A malformed pattern fails at load time**: every rule of a config that
/// compiles has a pattern that the regex compiler takes.
pub proof fn law_compiled_patterns_are_valid(m: Map<Text, SharedRuleModel>, ks: Seq<Text>)
    ensures
        compiled(m, ks) matches Ok(rs) ==> forall|i: int|
            0 <= i < rs.len() ==> regex_refusal((#[trigger] rs[i]).pattern) is None,
    decreases ks.len(),
{
    if ks.len() > 0 {
        law_compiled_patterns_are_valid(m, ks.drop_last());
    }
}

// --- gates ------------------------------------------------------------------

/// One predicate to run before a cascade may start.
#[derive(Debug)]
pub struct Gate {
    /// The predicate's process.
    pub spawn: Spawn,
    /// What is said if it cannot be spawned.
    pub lost: String,
    /// What is said if it denies.
    pub denial: String,
}

/// What a `Gate` stands for.
#[verifier::ext_equal]
pub struct GateModel {
    pub spawn: SpawnModel,
    pub lost: Text,
    pub denial: Text,
}

impl DeepView for Gate {
    type V = GateModel;

    open spec fn deep_view(&self) -> GateModel {
        GateModel {
            spawn: self.spawn.deep_view(),
            lost: self.lost@,
            denial: self.denial@,
        }
    }
}

/// The variables that a predicate gets.
pub open spec fn gate_env(repo: Text, command: Text) -> Seq<(Text, Text)> {
    seq![("XEN_REPO"@, repo), ("XEN_COMMAND"@, command)]
}

/// One rule as a gate in one repo.
pub open spec fn gate_of(rule: RuleModel, command: Text, repo: Text, dir: Text) -> GateModel {
    GateModel {
        spawn: shell_of(dir, rule.predicate, gate_env(repo, command)),
        lost: shell_not_spawned(dir, rule.predicate),
        denial: "rule "@ + text::debug_text(rule.name) + " denied: "@ + rule.message + " (in "@
            + repo + ")"@,
    }
}

/// The gates of the rules that match `command`, in order, in one repo.
pub open spec fn gates_of(rules: Seq<RuleModel>, command: Text, repo: Text, dir: Text) -> Seq<
    GateModel,
>
    decreases rules.len(),
{
    if rules.len() == 0 {
        Seq::empty()
    } else if fires(rules.last().pattern, command) {
        gates_of(rules.drop_last(), command, repo, dir).push(
            gate_of(rules.last(), command, repo, dir),
        )
    } else {
        gates_of(rules.drop_last(), command, repo, dir)
    }
}

fn gate(rule: &Rule, command: &str, repo_name: &str, repo_dir: &str) -> (r: Gate)
    ensures
        r.deep_view() == gate_of(rule.deep_view(), command@, repo_name@, repo_dir@),
{
    let mut env: Vec<(String, String)> = Vec::new();
    env.push(("XEN_REPO".to_owned(), repo_name.to_owned()));
    env.push(("XEN_COMMAND".to_owned(), command.to_owned()));
    assert(env.deep_view() =~= gate_env(repo_name@, command@));
    let spawn: Spawn = proc::sh_env(repo_dir, rule.predicate.as_str(), &env);
    let lost: String = proc::shell_lost(repo_dir, rule.predicate.as_str());
    let mut denial: String = text::cat("rule ", text::quoted(rule.name.as_str()).as_str());
    denial.append(" denied: ");
    denial.append(rule.message.as_str());
    denial.append(" (in ");
    denial.append(repo_name);
    denial.append(")");
    Gate { spawn, lost, denial }
}

/// The predicates to run in `repo_dir` before `command` may run there: those
/// of every rule whose pattern matches, in order.
pub fn check(rules: &Vec<Rule>, command: &str, repo_name: &str, repo_dir: &str) -> (r: Vec<Gate>)
    ensures
        r.deep_view() == gates_of(rules.deep_view(), command@, repo_name@, repo_dir@),
{
    let ghost q = rules.deep_view();
    let mut out: Vec<Gate> = Vec::new();
    assert(out.deep_view() =~= gates_of(q.take(0), command@, repo_name@, repo_dir@));
    for i in 0..rules.len()
        invariant
            q == rules.deep_view(),
            out.deep_view() == gates_of(q.take(i as int), command@, repo_name@, repo_dir@),
    {
        let ghost done = out.deep_view();
        assert(q.take(i + 1).drop_last() =~= q.take(i as int));
        if pattern::fires_on(rules[i].pattern.as_str(), command) {
            let g: Gate = gate(&rules[i], command, repo_name, repo_dir);
            out.push(g);
            assert(out.deep_view() =~= done.push(g.deep_view()));
        }
    }
    assert(q.take(rules@.len() as int) =~= q);
    out
}

/// Whether a gate lets the cascade through, and otherwise why not.
pub open spec fn passed(g: GateModel, reply: ReplyModel) -> Result<(), Text> {
    match reply {
        ReplyModel::Lost(why) => Err(g.lost + ": "@ + why),
        ReplyModel::Ran(o) => if o.ok() {
            Ok(())
        } else {
            Err(g.denial)
        },
    }
}

impl Gate {
    /// Takes the predicate's verdict.
    pub fn pass(&self, reply: &Reply) -> (r: Result<(), String>)
        ensures
            outcome(r) == passed(self.deep_view(), reply.deep_view()),
    {
        match reply {
            Reply::Lost(why) => {
                let mut e: String = text::cat(self.lost.as_str(), ": ");
                e.append(why.as_str());
                Err(e)
            },
            Reply::Ran(o) => if o.ok() {
                Ok(())
            } else {
                Err(self.denial.clone())
            },
        }
    }
}

// --- defaults ---------------------------------------------------------------

/// Denies pushes to or from main/master.
pub const PROTECT_MAIN_PUSH_PREDICATE: &'static str = r#"
# Deny: any push that mentions main/master as a refspec word, any
# force/force-with-lease push, any delete of main/master, and any
# bare `git push` while HEAD is on main/master.
case " $XEN_COMMAND " in
  *' main '*|*' main:'*|*':main '*|*':main:'*) exit 1 ;;
  *' master '*|*' master:'*|*':master '*|*':master:'*) exit 1 ;;
  *' --force '*|*' -f '*|*' --force-with-lease '*|*' --force-with-lease='*) exit 1 ;;
  *' --delete '*' main'*|*' --delete '*' master'*) exit 1 ;;
  *' -d '*' main'*|*' -d '*' master'*) exit 1 ;;
esac
# `git push` (no refspec) pushes the current branch — deny if that's main/master.
case "$(git symbolic-ref --short HEAD 2>/dev/null)" in
  main|master)
    case "$XEN_COMMAND" in
      'git push'|'git push '*origin|'git push origin'|'git push -u origin')
        exit 1 ;;
    esac
    ;;
esac
exit 0
"#;

/// Denies commits while on main/master.
pub const PROTECT_MAIN_COMMIT_PREDICATE: &'static str = r#"
case "$(git symbolic-ref --short HEAD 2>/dev/null)" in
  main|master) exit 1 ;;
esac
exit 0
"#;

/// The rule that protects main from pushes.
pub open spec fn protect_push() -> SharedRuleModel {
    SharedRuleModel {
        pattern: Some(r"^\s*git\s+push"@),
        predicate: Some(PROTECT_MAIN_PUSH_PREDICATE@),
        message: Some(
            "would push to or from main/master, or use --force/--force-with-lease"@,
        ),
    }
}

/// The rule that protects main from commits.
pub open spec fn protect_commit() -> SharedRuleModel {
    SharedRuleModel {
        pattern: Some(r"^\s*git\s+commit"@),
        predicate: Some(PROTECT_MAIN_COMMIT_PREDICATE@),
        message: Some("would commit while on main/master; create a feature branch first"@),
    }
}

/// The rules of a fresh workspace.
pub open spec fn default_rules() -> Map<Text, SharedRuleModel> {
    Map::empty().insert("protect-main-push"@, protect_push()).insert(
        "protect-main-commit"@,
        protect_commit(),
    )
}

/// The rules that the first `portal add` seeds into a fresh workspace.
pub fn defaults() -> (r: TextMap<SharedRule>)
    ensures
        r.deep_view() == default_rules(),
{
    let mut out: TextMap<SharedRule> = TextMap::new();
    out.insert(
        "protect-main-push".to_owned(),
        SharedRule {
            pattern: Some(r"^\s*git\s+push".to_owned()),
            predicate: Some(PROTECT_MAIN_PUSH_PREDICATE.to_owned()),
            message: Some(
                "would push to or from main/master, or use --force/--force-with-lease".to_owned(),
            ),
        },
    );
    out.insert(
        "protect-main-commit".to_owned(),
        SharedRule {
            pattern: Some(r"^\s*git\s+commit".to_owned()),
            predicate: Some(PROTECT_MAIN_COMMIT_PREDICATE.to_owned()),
            message: Some(
                "would commit while on main/master; create a feature branch first".to_owned(),
            ),
        },
    );
    out
}

} // verus!
