//! What the workspace rules are for.

use crate::pattern::{fires, regex_matches, regex_refusal};
use crate::proc::{ReplyModel, OutputModel};
use crate::rules::{
    compiled, default_rules, gates_of, passed, ruled, GateModel, RuleModel,
    PROTECT_MAIN_COMMIT_PREDICATE, PROTECT_MAIN_PUSH_PREDICATE,
};
use crate::store::SharedRuleModel;
use crate::text::{debug_text, Text};
use vstd::prelude::*;

verus! {

/// **A pattern fires where it compiles and has a match.**
pub proof fn law_fires(pattern: Text, hay: Text)
    ensures
        fires(pattern, hay) <==> regex_refusal(pattern) is None && regex_matches(pattern, hay),
{
}

/// **Every rule that matches has a gate, and no other has**: there are as many
/// gates as rules whose pattern has a match in the command, and they come in
/// the order of those rules. Each is `sh -c` of its rule's predicate in the
/// repo's directory, with the repo and the command in its environment, and a
/// denial names the rule, its message and the repo.
pub proof fn law_every_matching_rule_has_a_gate(
    rules: Seq<RuleModel>,
    command: Text,
    repo: Text,
    dir: Text,
)
    ensures
        ({
            let say = rules.filter(
                |r: RuleModel| regex_refusal(r.pattern) is None && regex_matches(
                    r.pattern,
                    command,
                ),
            );
            let gates = gates_of(rules, command, repo, dir);
            &&& gates.len() == say.len()
            &&& forall|i: int|
                #![trigger gates[i]]
                0 <= i < gates.len() ==> {
                    &&& gates[i].spawn.argv == seq!["sh"@, "-c"@, say[i].predicate]
                    &&& gates[i].spawn.dir == dir
                    &&& gates[i].spawn.stdin_null
                    &&& gates[i].spawn.env == seq![
                        ("GIT_TERMINAL_PROMPT"@, "0"@),
                        ("XEN_REPO"@, repo),
                        ("XEN_COMMAND"@, command),
                    ]
                    &&& gates[i].denial == "rule "@ + debug_text(say[i].name) + " denied: "@
                        + say[i].message + " (in "@ + repo + ")"@
                    &&& gates[i].lost == "spawn sh -c "@ + debug_text(say[i].predicate) + " in "@
                        + dir
                }
        }),
    decreases rules.len(),
{
    let f = |r: RuleModel| regex_refusal(r.pattern) is None && regex_matches(r.pattern, command);
    reveal(Seq::filter);
    if rules.len() > 0 {
        law_every_matching_rule_has_a_gate(rules.drop_last(), command, repo, dir);
        let gates = gates_of(rules, command, repo, dir);
        if f(rules.last()) {
            assert(gates.last().spawn.env =~= seq![
                ("GIT_TERMINAL_PROMPT"@, "0"@),
                ("XEN_REPO"@, repo),
                ("XEN_COMMAND"@, command),
            ]);
        }
    }
}

/// **No rule is passed over**: for every rule whose pattern has a match in the
/// command, its predicate is among the gates.
pub proof fn law_no_rule_is_passed_over(
    rules: Seq<RuleModel>,
    command: Text,
    repo: Text,
    dir: Text,
    i: int,
)
    requires
        0 <= i < rules.len(),
        regex_refusal(rules[i].pattern) is None,
        regex_matches(rules[i].pattern, command),
    ensures
        exists|j: int|
            0 <= j < gates_of(rules, command, repo, dir).len() && (#[trigger] gates_of(
                rules,
                command,
                repo,
                dir,
            )[j]).spawn.argv == seq!["sh"@, "-c"@, rules[i].predicate],
    decreases rules.len(),
{
    let gates = gates_of(rules, command, repo, dir);
    if i == rules.len() - 1 {
        assert(gates[gates.len() - 1].spawn.argv =~= seq!["sh"@, "-c"@, rules[i].predicate]);
    } else {
        let init = rules.drop_last();
        law_no_rule_is_passed_over(init, command, repo, dir, i);
        let before = gates_of(init, command, repo, dir);
        let j = choose|j: int|
            0 <= j < before.len() && (#[trigger] before[j]).spawn.argv == seq![
                "sh"@,
                "-c"@,
                init[i].predicate,
            ];
        assert(gates[j] == before[j]);
    }
}

/// **A gate lets the cascade through exactly where its predicate exits with
/// zero**, and otherwise says why.
pub proof fn law_gate_goes_by_the_exit_status(g: GateModel, o: OutputModel, why: Text)
    ensures
        passed(g, ReplyModel::Ran(o)) is Ok <==> o.status == 0,
        o.status != 0 ==> passed(g, ReplyModel::Ran(o)) == Err::<(), Text>(g.denial),
        passed(g, ReplyModel::Lost(why)) == Err::<(), Text>(g.lost + ": "@ + why),
{
}

/// **A rule is what its entry says**: it has the entry's pattern and predicate,
/// and the entry's message or one that names the rule. An entry that lacks the
/// pattern or the predicate gives none, nor does one whose pattern the regex
/// compiler refuses.
pub proof fn law_rule_is_what_its_entry_says(
    name: Text,
    raw: SharedRuleModel,
    refusal: Option<Text>,
)
    ensures
        ruled(name, raw, refusal) is Ok <==> raw.pattern is Some && raw.predicate is Some
            && refusal is None,
        ruled(name, raw, refusal) matches Ok(r) ==> {
            &&& r.name == name
            &&& Some(r.pattern) == raw.pattern
            &&& Some(r.predicate) == raw.predicate
            &&& raw.message matches Some(m) ==> r.message == m
            &&& raw.message is None ==> r.message == "rule "@ + debug_text(name)
                + " denied this command"@
        },
        raw.pattern is None || raw.predicate is None ==> ruled(name, raw, refusal) == Err::<
            RuleModel,
            Text,
        >(
            "rule "@ + debug_text(name)
                + " is incomplete (need both `pattern` and `predicate`)"@,
        ),
        raw.pattern is Some && raw.predicate is Some && refusal is Some ==> ruled(
            name,
            raw,
            refusal,
        ) == Err::<RuleModel, Text>(
            "rule "@ + debug_text(name) + ": invalid regex "@ + debug_text(raw.pattern.unwrap())
                + ": "@ + refusal.unwrap(),
        ),
{
}

/// **Every rule is compiled, in order**: of the entries that have a pattern or
/// a predicate, each gives one rule, with its own name, pattern and predicate.
pub proof fn law_every_rule_is_compiled(m: Map<Text, SharedRuleModel>, ks: Seq<Text>)
    ensures
        ({
            let defined = ks.filter(|k: Text| m[k].pattern is Some || m[k].predicate is Some);
            compiled(m, ks) matches Ok(rs) ==> rs.len() == defined.len() && forall|i: int|
                #![trigger rs[i]]
                0 <= i < rs.len() ==> rs[i].name == defined[i] && Some(rs[i].pattern)
                    == m[defined[i]].pattern && Some(rs[i].predicate) == m[defined[i]].predicate
                    && (m[defined[i]].message matches Some(t) ==> rs[i].message == t)
        }),
        compiled(m, ks) is Ok <==> forall|i: int|
            #![trigger ks[i]]
            0 <= i < ks.len() ==> (m[ks[i]].pattern is None && m[ks[i]].predicate is None) || (
            m[ks[i]].pattern is Some && m[ks[i]].predicate is Some && regex_refusal(
                m[ks[i]].pattern.unwrap(),
            ) is None),
    decreases ks.len(),
{
    reveal(Seq::filter);
    if ks.len() > 0 {
        let init = ks.drop_last();
        law_every_rule_is_compiled(m, init);
        assert forall|i: int| 0 <= i < init.len() implies init[i] == ks[i] by {}
        assert(ks[ks.len() - 1] == ks.last());
    }
}

/// **What the default predicates deny**: a push that names main or master as a
/// word of a refspec, forces, or deletes either; a bare push from either; and a
/// commit on either.
pub proof fn law_default_predicates()
    ensures
        PROTECT_MAIN_PUSH_PREDICATE@ == r#"
# Deny: any push that mentions main/master as a refspec word, any
# force/force-with-lease push, any delete of main/master, and any
# bare `git push` while HEAD is on main/master.
case " $XEN_COMMAND " in
  *' main '*|*' main:'*|*':main '*|*':main:'*) exit 1 ;;
  *' master '*|*' master:'*|*':master '*|*':master:'*) exit 1 ;;
  *' --force '*|*' -f '*|*' --force-with-lease '*|*' --force-with-lease='*) exit 1 ;;
  *' --delete '*' main'*|*' --delete '*' master'*) exit 1 ;;
  *' -d '*' main'*|*' -d '*' master'*) exit 1 ;;
esac
# `git push` (no refspec) pushes the current branch — deny if that's main/master.
case "$(git symbolic-ref --short HEAD 2>/dev/null)" in
  main|master)
    case "$XEN_COMMAND" in
      'git push'|'git push '*origin|'git push origin'|'git push -u origin')
        exit 1 ;;
    esac
    ;;
esac
exit 0
"#@,
        PROTECT_MAIN_COMMIT_PREDICATE@ == r#"
case "$(git symbolic-ref --short HEAD 2>/dev/null)" in
  main|master) exit 1 ;;
esac
exit 0
"#@,
{
}

/// **The default rules protect main**: one for pushes and one for commits, and
/// no other, each with the predicate that denies them.
pub proof fn law_default_rules(n: Text)
    ensures
        default_rules().contains_key(n) <==> n == "protect-main-push"@ || n
            == "protect-main-commit"@,
        default_rules()["protect-main-push"@].pattern == Some(r"^\s*git\s+push"@),
        default_rules()["protect-main-push"@].predicate == Some(PROTECT_MAIN_PUSH_PREDICATE@),
        default_rules()["protect-main-push"@].message == Some(
            "would push to or from main/master, or use --force/--force-with-lease"@,
        ),
        default_rules()["protect-main-commit"@].pattern == Some(r"^\s*git\s+commit"@),
        default_rules()["protect-main-commit"@].predicate == Some(
            PROTECT_MAIN_COMMIT_PREDICATE@,
        ),
        default_rules()["protect-main-commit"@].message == Some(
            "would commit while on main/master; create a feature branch first"@,
        ),
{
    reveal_strlit("protect-main-push");
    reveal_strlit("protect-main-commit");
    assert("protect-main-push"@.len() != "protect-main-commit"@.len());
}

} // verus!
