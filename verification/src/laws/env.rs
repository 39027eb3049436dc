//! What `env` is for.

use crate::cli::{parsed_alias, EnvArgs, EnvOp, HooksOp, RulesOp};
use crate::key::{
    parsed_bare_name, parsed_hook, parsed_key, parsed_rule, HookField, KeyErrorModel, KeyModel,
    Layer, RuleField, SharedKeyModel,
};
use crate::laws::text::law_split;
use crate::place::place_of;
use crate::store::{SharedHookModel, SharedRuleModel};
use crate::text::{debug_text, joined, lemma_split_first, split_on, trimmed, Class, Text};
use crate::textmap::keys_of;
use crate::verbs::env::{
    field_line, hook_dropped, hook_entries, hook_entry, listed_hooks, listed_rules, planned,
    raw_text, rule_dropped, rule_entries, rule_entry, section, shown_hook, shown_rule, shown_value,
    EnvPlanModel,
};
use crate::verbs::lookup::looked_up;
use crate::verbs::merged::MergedRepoModel;
use vstd::prelude::*;

verus! {

/// **An assignment sets the key before the first `=` to all that is behind it**,
/// in the layer that was asked for, and says so.
pub proof fn law_set(args: EnvArgs, k: Text, v: Text)
    requires
        !k.contains('='),
        args.op matches Some(EnvOp::Assign { assignment, .. }) && assignment@ == k + "="@ + v,
    ensures
        args.op matches Some(EnvOp::Assign { private, .. }) && {
            let layer = if private {
                Layer::Private
            } else {
                Layer::Shared
            };
            let name = if private {
                "private"@
            } else {
                "shared"@
            };
            match parsed_key(k, layer) {
                Ok(key) => planned(args) == Ok::<EnvPlanModel, Text>(
                    EnvPlanModel::Write {
                        key,
                        value: v,
                        said: "set: "@ + k + " ("@ + name + ")\n"@,
                    },
                ),
                Err(e) => planned(args) == Err::<EnvPlanModel, Text>(e.message()),
            }
        },
{
    reveal_strlit("=");
    assert("="@ =~= seq!['=']);
    lemma_split_first(k, '=', v);
}

/// **Unsetting takes the key as it stands**, in the layer that was asked for.
pub proof fn law_unset(args: EnvArgs)
    requires
        args.op matches Some(EnvOp::Unset { .. }),
    ensures
        args.op matches Some(EnvOp::Unset { key, private }) && {
            let layer = if private {
                Layer::Private
            } else {
                Layer::Shared
            };
            let name = if private {
                "private"@
            } else {
                "shared"@
            };
            match parsed_key(key@, layer) {
                Ok(k) => planned(args) == Ok::<EnvPlanModel, Text>(
                    EnvPlanModel::Unset {
                        key: k,
                        said: "unset: "@ + key@ + " ("@ + name + ")\n"@,
                    },
                ),
                Err(e) => planned(args) == Err::<EnvPlanModel, Text>(e.message()),
            }
        },
{
}

/// **Setting a field of a rule or a hook** writes that field, and says so.
pub proof fn law_set_rule_or_hook(args: EnvArgs, k: Text, v: Text)
    requires
        !k.contains('='),
    ensures
        args.op matches Some(EnvOp::Rules { op: RulesOp::Assign { assignment } }) && assignment@
            == k + "="@ + v ==> match parsed_rule(k) {
            Ok((name, field)) => planned(args) == Ok::<EnvPlanModel, Text>(
                EnvPlanModel::Write {
                    key: KeyModel::Shared(SharedKeyModel::Rule(name, field)),
                    value: v,
                    said: "rules: set "@ + k + "\n"@,
                },
            ),
            Err(e) => planned(args) == Err::<EnvPlanModel, Text>(e.message()),
        },
        args.op matches Some(EnvOp::Hooks { op: HooksOp::Assign { assignment } }) && assignment@
            == k + "="@ + v ==> match parsed_hook(k) {
            Ok((name, field)) => planned(args) == Ok::<EnvPlanModel, Text>(
                EnvPlanModel::Write {
                    key: KeyModel::Shared(SharedKeyModel::Hook(name, field)),
                    value: v,
                    said: "hooks: set "@ + k + "\n"@,
                },
            ),
            Err(e) => planned(args) == Err::<EnvPlanModel, Text>(e.message()),
        },
{
    reveal_strlit("=");
    assert("="@ =~= seq!['=']);
    lemma_split_first(k, '=', v);
}

/// **What has no `=` is not an assignment**, whatever it is to set.
pub proof fn law_not_an_assignment(args: EnvArgs, s: Text)
    requires
        !s.contains('='),
        match args.op {
            Some(EnvOp::Assign { assignment, .. }) => assignment@ == s,
            Some(EnvOp::Rules { op: RulesOp::Assign { assignment } }) => assignment@ == s,
            Some(EnvOp::Hooks { op: HooksOp::Assign { assignment } }) => assignment@ == s,
            _ => false,
        },
    ensures
        planned(args) == Err::<EnvPlanModel, Text>("expected key=value, got "@ + debug_text(s)),
{
    crate::laws::text::law_split_first(s, '=');
    if let Some((k, v)) = crate::text::split_first(s, '=') {
        assert(s[k.len() as int] == '=');
    }
}

/// **Unsetting a rule or a hook** takes one field, or the whole by its bare
/// name; anything else is refused.
pub proof fn law_unset_rule_or_hook(args: EnvArgs)
    ensures
        args.op matches Some(EnvOp::Rules { op: RulesOp::Unset { key } }) ==> planned(args) == (
        match parsed_rule(key@) {
            Ok((name, field)) => Ok::<EnvPlanModel, Text>(
                EnvPlanModel::Unset {
                    key: KeyModel::Shared(SharedKeyModel::Rule(name, field)),
                    said: "rules: unset "@ + key@ + "\n"@,
                },
            ),
            Err(_) => if parsed_bare_name(key@, KeyErrorModel::InvalidRuleName(key@)) is Ok {
                Ok(EnvPlanModel::RemoveRule { name: key@ })
            } else {
                Err("rules: invalid key "@ + debug_text(key@))
            },
        }),
        args.op matches Some(EnvOp::Hooks { op: HooksOp::Unset { key } }) ==> planned(args) == (
        match parsed_hook(key@) {
            Ok((name, field)) => Ok::<EnvPlanModel, Text>(
                EnvPlanModel::Unset {
                    key: KeyModel::Shared(SharedKeyModel::Hook(name, field)),
                    said: "hooks: unset "@ + key@ + "\n"@,
                },
            ),
            Err(_) => if parsed_bare_name(key@, KeyErrorModel::InvalidHookName(key@)) is Ok {
                Ok(EnvPlanModel::RemoveHook { name: key@ })
            } else {
                Err("hooks: invalid key "@ + debug_text(key@))
            },
        }),
{
}

/// **What only shows is planned as such**: one value, one rule or hook, all of
/// them, a raw layer, or the report.
pub proof fn law_show(args: EnvArgs)
    ensures
        args.op matches Some(EnvOp::Get { key }) ==> planned(args) == Ok::<EnvPlanModel, Text>(
            EnvPlanModel::Get { key: key@ },
        ),
        args.op matches Some(EnvOp::Rules { op: RulesOp::Get { key } }) ==> planned(args) == Ok::<
            EnvPlanModel,
            Text,
        >(EnvPlanModel::GetRule { key: key@ }),
        args.op matches Some(EnvOp::Rules { op: RulesOp::List }) ==> planned(args) == Ok::<
            EnvPlanModel,
            Text,
        >(EnvPlanModel::ListRules),
        args.op matches Some(EnvOp::Hooks { op: HooksOp::Get { key } }) ==> planned(args) == Ok::<
            EnvPlanModel,
            Text,
        >(EnvPlanModel::GetHook { key: key@ }),
        args.op matches Some(EnvOp::Hooks { op: HooksOp::List }) ==> planned(args) == Ok::<
            EnvPlanModel,
            Text,
        >(EnvPlanModel::ListHooks),
        args.op is None && args.shared ==> planned(args) == Ok::<EnvPlanModel, Text>(
            EnvPlanModel::RawShared,
        ),
        args.op is None && !args.shared && args.private ==> planned(args) == Ok::<
            EnvPlanModel,
            Text,
        >(EnvPlanModel::RawPrivate),
        args.op is None && !args.shared && !args.private ==> planned(args) == Ok::<
            EnvPlanModel,
            Text,
        >(EnvPlanModel::Status),
{
}

// --- one merged value -------------------------------------------------------

proof fn lemma_two(a: Text, f: Text)
    requires
        !a.contains('.'),
        !f.contains('.'),
    ensures
        split_on(a + seq!['.'] + f, '.') == seq![a, f],
{
    law_split(a, a, f, '.');
    law_split(f, a, f, '.');
    assert(seq![a] + seq![f] =~= seq![a, f]);
}

/// **Each field of a repo is found under its key**: the URL, the placement, the
/// sparse paths with commas between, every mapping on a line of its own, and
/// the branch of one branchtype. Of a repo that is not there, nothing is.
pub proof fn law_lookup(m: Map<Text, MergedRepoModel>, n: Text, b: Text)
    requires
        !n.contains('.'),
        !b.contains('.'),
    ensures
        m.contains_key(n) ==> {
            let r = m[n];
            &&& looked_up(m, n + ".url"@) == r.url
            &&& looked_up(m, n + ".at"@) == Some(place_of(r.at, r.url, n))
            &&& looked_up(m, n + ".paths"@) == (if r.paths.len() > 0 {
                Some(joined(r.paths, ","@))
            } else {
                None
            })
            &&& looked_up(m, n + ".branchtypes"@) == (if r.branchtypes == Map::<
                Text,
                Text,
            >::empty() {
                None
            } else {
                Some(
                    joined(
                        keys_of(r.branchtypes).map_values(|k: Text| k + "="@ + r.branchtypes[k]),
                        "\n"@,
                    ),
                )
            })
            &&& looked_up(m, n + ".branchtypes."@ + b) == (if r.branchtypes.contains_key(b) {
                Some(r.branchtypes[b])
            } else {
                None
            })
        },
        !m.contains_key(n) ==> {
            &&& looked_up(m, n + ".url"@) is None
            &&& looked_up(m, n + ".at"@) is None
            &&& looked_up(m, n + ".paths"@) is None
            &&& looked_up(m, n + ".branchtypes"@) is None
            &&& looked_up(m, n + ".branchtypes."@ + b) is None
        },
{
    reveal_strlit(".url");
    reveal_strlit("url");
    reveal_strlit(".at");
    reveal_strlit("at");
    reveal_strlit(".paths");
    reveal_strlit("paths");
    reveal_strlit(".branchtypes");
    reveal_strlit(".branchtypes.");
    reveal_strlit("branchtypes");
    assert("url"@[0] == 'u' && "at"@[0] == 'a' && "paths"@[0] == 'p' && "branchtypes"@[0] == 'b');
    assert(n + ".url"@ =~= n + seq!['.'] + "url"@);
    assert(n + ".at"@ =~= n + seq!['.'] + "at"@);
    assert(n + ".paths"@ =~= n + seq!['.'] + "paths"@);
    assert(n + ".branchtypes"@ =~= n + seq!['.'] + "branchtypes"@);
    assert(n + ".branchtypes."@ + b =~= (n + seq!['.'] + "branchtypes"@) + seq!['.'] + b);
    lemma_two(n, "url"@);
    lemma_two(n, "at"@);
    lemma_two(n, "paths"@);
    lemma_two(n, "branchtypes"@);
    law_split(b, n + seq!['.'] + "branchtypes"@, b, '.');
    assert(seq![n, "branchtypes"@] + seq![b] =~= seq![n, "branchtypes"@, b]);
}

/// **Nothing is found under any other key.**
pub proof fn law_lookup_of_another_key(m: Map<Text, MergedRepoModel>, dotted: Text)
    ensures
        ({
            let p = split_on(dotted, '.');
            let known = {
                ||| p.len() == 2 && (p[1] == "url"@ || p[1] == "at"@ || p[1] == "paths"@ || p[1]
                    == "branchtypes"@)
                ||| p.len() == 3 && p[1] == "branchtypes"@
            };
            !known ==> looked_up(m, dotted) is None
        }),
{
}

/// **`env get` shows the value on a line of its own**, or says that there is
/// none.
pub proof fn law_get(m: Map<Text, MergedRepoModel>, key: Text)
    ensures
        looked_up(m, key) matches Some(v) ==> shown_value(m, key) == Ok::<Text, Text>(v + "\n"@),
        looked_up(m, key) is None ==> shown_value(m, key) == Err::<Text, Text>(
            "env get: no value for "@ + debug_text(key),
        ),
{
}

// --- rules and hooks --------------------------------------------------------

/// **What is said of a rule or a hook that is dropped.**
pub proof fn law_dropped(name: Text)
    ensures
        rule_dropped(true, name) == Ok::<Text, Text>("rules: removed rule "@ + name + "\n"@),
        rule_dropped(false, name) == Err::<Text, Text>("rules: no rule named "@ + name),
        hook_dropped(true, name) == Ok::<Text, Text>("hooks: removed hook "@ + name + "\n"@),
        hook_dropped(false, name) == Err::<Text, Text>("hooks: no hook named "@ + name),
{
}

/// **A field of a rule is shown as it is recorded**; what is not there is told.
pub proof fn law_get_rule_field(
    m: Map<Text, SharedRuleModel>,
    key: Text,
    name: Text,
    field: RuleField,
)
    requires
        parsed_rule(key) == Ok::<(Text, RuleField), KeyErrorModel>((name, field)),
    ensures
        !m.contains_key(name) ==> shown_rule(m, key) == Err::<Text, Text>(
            "rules get: no rule named "@ + name,
        ),
        m.contains_key(name) ==> shown_rule(m, key) == (match (match field {
            RuleField::Pattern => m[name].pattern,
            RuleField::Predicate => m[name].predicate,
            RuleField::Message => m[name].message,
        }) {
            Some(v) => Ok::<Text, Text>(v + "\n"@),
            None => Err("rules get: no value for "@ + key),
        }),
{
}

/// **A field of a hook is shown as it is recorded**; what is not there is told.
pub proof fn law_get_hook_field(
    m: Map<Text, SharedHookModel>,
    key: Text,
    name: Text,
    field: HookField,
)
    requires
        parsed_hook(key) == Ok::<(Text, HookField), KeyErrorModel>((name, field)),
    ensures
        !m.contains_key(name) ==> shown_hook(m, key) == Err::<Text, Text>(
            "hooks get: no hook named "@ + name,
        ),
        m.contains_key(name) ==> shown_hook(m, key) == (match (match field {
            HookField::Match => m[name].match_pattern,
            HookField::Exec => m[name].exec_command,
            HookField::When => m[name].when,
        }) {
            Some(v) => Ok::<Text, Text>(v + "\n"@),
            None => Err("hooks get: no value for "@ + key),
        }),
{
}

/// **A line with a field is there where the field is set.**
pub proof fn law_field_line(label: Text, v: Text)
    ensures
        field_line(label, Some(v)) == label + v + "\n"@,
        field_line(label, None).len() == 0,
{
}

/// **A whole rule, or a whole hook, is shown with all its fields**, under its
/// bare name; a key that is neither is refused.
pub proof fn law_get_whole(
    rules: Map<Text, SharedRuleModel>,
    hooks: Map<Text, SharedHookModel>,
    key: Text,
)
    ensures
        parsed_rule(key) is Err ==> shown_rule(rules, key) == (if parsed_bare_name(
            key,
            KeyErrorModel::InvalidRuleName(key),
        ) is Err {
            Err::<Text, Text>("rules: invalid key "@ + debug_text(key))
        } else if rules.contains_key(key) {
            Ok(
                field_line("pattern   = "@, rules[key].pattern) + field_line(
                    "predicate = "@,
                    rules[key].predicate,
                ) + field_line("message   = "@, rules[key].message),
            )
        } else {
            Err("rules get: no rule named "@ + key)
        }),
        parsed_hook(key) is Err ==> shown_hook(hooks, key) == (if parsed_bare_name(
            key,
            KeyErrorModel::InvalidHookName(key),
        ) is Err {
            Err::<Text, Text>("hooks: invalid key "@ + debug_text(key))
        } else if hooks.contains_key(key) {
            Ok(
                field_line("match = "@, hooks[key].match_pattern) + field_line(
                    "exec  = "@,
                    hooks[key].exec_command,
                ) + field_line("when  = "@, hooks[key].when),
            )
        } else {
            Err("hooks get: no hook named "@ + key)
        }),
{
}

/// **An entry of a list**: a rule with its pattern and its message, a hook with
/// its phase, its pattern and its command.
pub proof fn law_list_entry(name: Text, r: SharedRuleModel, h: SharedHookModel)
    ensures
        rule_entry(name, r) == name + "\n"@ + "  pattern: "@ + (match r.pattern {
            Some(p) => p,
            None => "(unset)"@,
        }) + "\n"@ + field_line("  message: "@, r.message),
        hook_entry(name, h) == name + " ("@ + (match h.when {
            Some(w) => w,
            None => "post"@,
        }) + ")\n"@ + "  match: "@ + (match h.match_pattern {
            Some(p) => p,
            None => "(unset)"@,
        }) + "\n"@ + field_line("  exec: "@, h.exec_command),
{
}

/// **Every rule and every hook is listed, once, in order.**
pub proof fn law_list_has_every_entry(
    rules: Map<Text, SharedRuleModel>,
    hooks: Map<Text, SharedHookModel>,
)
    ensures
        keys_of(rules).len() == 0 ==> listed_rules(rules) == "(no rules configured)\n"@,
        keys_of(rules).len() > 0 ==> listed_rules(rules) == keys_of(rules).map_values(
            |k: Text| rule_entry(k, rules[k]),
        ).flatten(),
        keys_of(hooks).len() == 0 ==> listed_hooks(hooks) == "(no hooks configured)\n"@,
        keys_of(hooks).len() > 0 ==> listed_hooks(hooks) == keys_of(hooks).map_values(
            |k: Text| hook_entry(k, hooks[k]),
        ).flatten(),
{
    lemma_rule_entries(rules, keys_of(rules));
    lemma_hook_entries(hooks, keys_of(hooks));
}

proof fn lemma_rule_entries(m: Map<Text, SharedRuleModel>, ks: Seq<Text>)
    ensures
        rule_entries(m, ks) == ks.map_values(|k: Text| rule_entry(k, m[k])).flatten(),
    decreases ks.len(),
{
    let f = |k: Text| rule_entry(k, m[k]);
    let parts = ks.map_values(f);
    parts.lemma_flatten_and_flatten_alt_are_equivalent();
    if ks.len() > 0 {
        lemma_rule_entries(m, ks.drop_last());
        assert(parts.drop_last() =~= ks.drop_last().map_values(f));
        parts.drop_last().lemma_flatten_and_flatten_alt_are_equivalent();
        assert(parts.last() == f(ks.last()));
    }
}

proof fn lemma_hook_entries(m: Map<Text, SharedHookModel>, ks: Seq<Text>)
    ensures
        hook_entries(m, ks) == ks.map_values(|k: Text| hook_entry(k, m[k])).flatten(),
    decreases ks.len(),
{
    let f = |k: Text| hook_entry(k, m[k]);
    let parts = ks.map_values(f);
    parts.lemma_flatten_and_flatten_alt_are_equivalent();
    if ks.len() > 0 {
        lemma_hook_entries(m, ks.drop_last());
        assert(parts.drop_last() =~= ks.drop_last().map_values(f));
        parts.drop_last().lemma_flatten_and_flatten_alt_are_equivalent();
        assert(parts.last() == f(ks.last()));
    }
}

/// **A section stands behind an empty line, where it is shown.**
pub proof fn law_section(body: Text)
    ensures
        section(true, body) == "\n"@ + body,
        section(false, body).len() == 0,
{
}

// --- arguments --------------------------------------------------------------

/// **An alias is what stands on either side of its first `=`**, without
/// surrounding white space.
pub proof fn law_alias(k: Text, v: Text, s: Text)
    requires
        !k.contains('='),
        !s.contains('='),
    ensures
        parsed_alias(k + "="@ + v) == Ok::<(Text, Text), Text>(
            (trimmed(k, Class::White), trimmed(v, Class::White)),
        ),
        parsed_alias(s) == Err::<(Text, Text), Text>(
            "expected key=value, got "@ + debug_text(s),
        ),
{
    reveal_strlit("=");
    assert("="@ =~= seq!['=']);
    lemma_split_first(k, '=', v);
    crate::laws::text::law_split_first(s, '=');
    if let Some((a, b)) = crate::text::split_first(s, '=') {
        assert(s[a.len() as int] == '=');
    }
}

/// **The raw shared layer is its files, as they are stored**: the manifest, and
/// behind it the rules and the hooks where there are any.
pub proof fn law_raw_text(
    repos: Text,
    rules: Map<Text, SharedRuleModel>,
    rules_file: Text,
    hooks: Map<Text, SharedHookModel>,
    hooks_file: Text,
)
    ensures
        raw_text(repos, Map::empty(), rules_file, Map::empty(), hooks_file) == repos,
        rules != Map::<Text, SharedRuleModel>::empty() ==> raw_text(
            repos,
            rules,
            rules_file,
            Map::empty(),
            hooks_file,
        ) == repos + "\n"@ + rules_file,
        hooks != Map::<Text, SharedHookModel>::empty() ==> raw_text(
            repos,
            Map::empty(),
            rules_file,
            hooks,
            hooks_file,
        ) == repos + "\n"@ + hooks_file,
        rules != Map::<Text, SharedRuleModel>::empty() && hooks != Map::<
            Text,
            SharedHookModel,
        >::empty() ==> raw_text(repos, rules, rules_file, hooks, hooks_file) == repos + "\n"@
            + rules_file + "\n"@ + hooks_file,
{
    let none = Seq::<char>::empty();
    assert(repos + none =~= repos);
    assert(repos + ("\n"@ + rules_file) =~= repos + "\n"@ + rules_file);
    assert(repos + ("\n"@ + rules_file) + none =~= repos + "\n"@ + rules_file);
    assert(repos + none + ("\n"@ + hooks_file) =~= repos + "\n"@ + hooks_file);
    assert(repos + ("\n"@ + rules_file) + ("\n"@ + hooks_file) =~= repos + "\n"@ + rules_file
        + "\n"@ + hooks_file);
}

} // verus!
