//! `env`: the only config surface.
//!
//! `env` turns its arguments into a plan, before any file is read. The plan
//! says which key to write or unset, or what to show; the functions below it
//! say what is shown.

use crate::cli::{not_assignment, EnvArgs, EnvOp, HooksOp, RulesOp};
use crate::key::{
    law_dotted_then_parse, law_parse_then_dotted, parsed_bare_name, parsed_hook, parsed_key,
    parsed_rule, valid_name, HookField, HookName, Key, KeyErrorModel, KeyModel, Layer, RuleField,
    RuleName, SharedKey, SharedKeyModel,
};
use crate::store::{
    self, change_repo, hook_value, rule_value, HooksConfig, PrivateRepoModel, RulesConfig,
    SharedHook, SharedHookModel, SharedRepoModel, SharedRule, SharedRuleModel,
};
use crate::text::{self, outcome, Text};
use crate::textmap::keys_of;
use crate::verbs::lookup::{law_get_after_shared_set, looked_up, lookup, overridden, reads_as};
use crate::verbs::merged::{merged, Merged, MergedRepoModel};
use vstd::prelude::*;

verus! {

// --- the plan ---------------------------------------------------------------

/// What an `env` invocation comes down to.
#[derive(Debug)]
pub enum EnvPlan {
    /// Set a key in the file that holds it, then say so.
    Write { key: Key, value: String, said: String },
    /// Unset a key in the file that holds it, then say so.
    Unset { key: Key, said: String },
    /// Show one merged value.
    Get { key: String },
    /// Drop a whole rule.
    RemoveRule { name: RuleName },
    /// Show a rule field or a whole rule.
    GetRule { key: String },
    /// Show all rules.
    ListRules,
    /// Drop a whole hook.
    RemoveHook { name: HookName },
    /// Show a hook field or a whole hook.
    GetHook { key: String },
    /// Show all hooks.
    ListHooks,
    /// Show the raw shared layer.
    RawShared,
    /// Show the raw private layer.
    RawPrivate,
    /// Show the interpreted status report.
    Status,
}

/// What an `EnvPlan` stands for.
pub enum EnvPlanModel {
    Write { key: KeyModel, value: Text, said: Text },
    Unset { key: KeyModel, said: Text },
    Get { key: Text },
    RemoveRule { name: Text },
    GetRule { key: Text },
    ListRules,
    RemoveHook { name: Text },
    GetHook { key: Text },
    ListHooks,
    RawShared,
    RawPrivate,
    Status,
}

impl DeepView for EnvPlan {
    type V = EnvPlanModel;

    open spec fn deep_view(&self) -> EnvPlanModel {
        match self {
            EnvPlan::Write { key, value, said } => EnvPlanModel::Write {
                key: key.deep_view(),
                value: value@,
                said: said@,
            },
            EnvPlan::Unset { key, said } => EnvPlanModel::Unset {
                key: key.deep_view(),
                said: said@,
            },
            EnvPlan::Get { key } => EnvPlanModel::Get { key: key@ },
            EnvPlan::RemoveRule { name } => EnvPlanModel::RemoveRule { name: name.deep_view() },
            EnvPlan::GetRule { key } => EnvPlanModel::GetRule { key: key@ },
            EnvPlan::ListRules => EnvPlanModel::ListRules,
            EnvPlan::RemoveHook { name } => EnvPlanModel::RemoveHook { name: name.deep_view() },
            EnvPlan::GetHook { key } => EnvPlanModel::GetHook { key: key@ },
            EnvPlan::ListHooks => EnvPlanModel::ListHooks,
            EnvPlan::RawShared => EnvPlanModel::RawShared,
            EnvPlan::RawPrivate => EnvPlanModel::RawPrivate,
            EnvPlan::Status => EnvPlanModel::Status,
        }
    }
}

/// The layer that the `--private` flag asks for.
pub open spec fn asked_layer(private: bool) -> Layer {
    if private {
        Layer::Private
    } else {
        Layer::Shared
    }
}

fn ask_layer(private: bool) -> (r: Layer)
    ensures
        r == asked_layer(private),
{
    if private {
        Layer::Private
    } else {
        Layer::Shared
    }
}

/// The plan for setting a key of a layer.
pub open spec fn planned_assign(assignment: Text, layer: Layer) -> Result<EnvPlanModel, Text> {
    match text::split_first(assignment, '=') {
        None => Err(not_assignment(assignment)),
        Some((k, v)) => match parsed_key(k, layer) {
            Err(e) => Err(e.message()),
            Ok(key) => Ok(
                EnvPlanModel::Write {
                    key,
                    value: v,
                    said: "set: "@ + k + " ("@ + layer.text() + ")\n"@,
                },
            ),
        },
    }
}

/// The plan for unsetting a key of a layer.
pub open spec fn planned_unset(key: Text, layer: Layer) -> Result<EnvPlanModel, Text> {
    match parsed_key(key, layer) {
        Err(e) => Err(e.message()),
        Ok(k) => Ok(
            EnvPlanModel::Unset { key: k, said: "unset: "@ + key + " ("@ + layer.text() + ")\n"@ },
        ),
    }
}

/// The plan for setting a rule field.
pub open spec fn planned_rule_assign(assignment: Text) -> Result<EnvPlanModel, Text> {
    match text::split_first(assignment, '=') {
        None => Err(not_assignment(assignment)),
        Some((k, v)) => match parsed_rule(k) {
            Err(e) => Err(e.message()),
            Ok((name, field)) => Ok(
                EnvPlanModel::Write {
                    key: KeyModel::Shared(SharedKeyModel::Rule(name, field)),
                    value: v,
                    said: "rules: set "@ + k + "\n"@,
                },
            ),
        },
    }
}

/// The plan for unsetting a rule field, or a whole rule by bare name.
pub open spec fn planned_rule_unset(key: Text) -> Result<EnvPlanModel, Text> {
    match parsed_rule(key) {
        Ok((name, field)) => Ok(
            EnvPlanModel::Unset {
                key: KeyModel::Shared(SharedKeyModel::Rule(name, field)),
                said: "rules: unset "@ + key + "\n"@,
            },
        ),
        Err(_) => match parsed_bare_name(key, KeyErrorModel::InvalidRuleName(key)) {
            Ok(name) => Ok(EnvPlanModel::RemoveRule { name }),
            Err(_) => Err("rules: invalid key "@ + text::debug_text(key)),
        },
    }
}

/// The plan for setting a hook field.
pub open spec fn planned_hook_assign(assignment: Text) -> Result<EnvPlanModel, Text> {
    match text::split_first(assignment, '=') {
        None => Err(not_assignment(assignment)),
        Some((k, v)) => match parsed_hook(k) {
            Err(e) => Err(e.message()),
            Ok((name, field)) => Ok(
                EnvPlanModel::Write {
                    key: KeyModel::Shared(SharedKeyModel::Hook(name, field)),
                    value: v,
                    said: "hooks: set "@ + k + "\n"@,
                },
            ),
        },
    }
}

/// The plan for unsetting a hook field, or a whole hook by bare name.
pub open spec fn planned_hook_unset(key: Text) -> Result<EnvPlanModel, Text> {
    match parsed_hook(key) {
        Ok((name, field)) => Ok(
            EnvPlanModel::Unset {
                key: KeyModel::Shared(SharedKeyModel::Hook(name, field)),
                said: "hooks: unset "@ + key + "\n"@,
            },
        ),
        Err(_) => match parsed_bare_name(key, KeyErrorModel::InvalidHookName(key)) {
            Ok(name) => Ok(EnvPlanModel::RemoveHook { name }),
            Err(_) => Err("hooks: invalid key "@ + text::debug_text(key)),
        },
    }
}

/// The plan for `env rules`.
pub open spec fn planned_rules(op: RulesOp) -> Result<EnvPlanModel, Text> {
    match op {
        RulesOp::Assign { assignment } => planned_rule_assign(assignment@),
        RulesOp::Unset { key } => planned_rule_unset(key@),
        RulesOp::Get { key } => Ok(EnvPlanModel::GetRule { key: key@ }),
        RulesOp::List => Ok(EnvPlanModel::ListRules),
    }
}

/// The plan for `env hooks`.
pub open spec fn planned_hooks(op: HooksOp) -> Result<EnvPlanModel, Text> {
    match op {
        HooksOp::Assign { assignment } => planned_hook_assign(assignment@),
        HooksOp::Unset { key } => planned_hook_unset(key@),
        HooksOp::Get { key } => Ok(EnvPlanModel::GetHook { key: key@ }),
        HooksOp::List => Ok(EnvPlanModel::ListHooks),
    }
}

/// The plan for `env`.
pub open spec fn planned(args: EnvArgs) -> Result<EnvPlanModel, Text> {
    match args.op {
        Some(EnvOp::Assign { assignment, private }) => planned_assign(
            assignment@,
            asked_layer(private),
        ),
        Some(EnvOp::Unset { key, private }) => planned_unset(key@, asked_layer(private)),
        Some(EnvOp::Get { key }) => Ok(EnvPlanModel::Get { key: key@ }),
        Some(EnvOp::Rules { op }) => planned_rules(op),
        Some(EnvOp::Hooks { op }) => planned_hooks(op),
        None => Ok(
            if args.shared {
                EnvPlanModel::RawShared
            } else if args.private {
                EnvPlanModel::RawPrivate
            } else {
                EnvPlanModel::Status
            },
        ),
    }
}

/// Plans an `env` invocation. A key that does not parse for the layer that was
/// asked for is refused here, before anything is read or written.
pub fn env(args: EnvArgs) -> (r: Result<EnvPlan, String>)
    ensures
        outcome(r) == planned(args),
{
    match args.op {
        Some(EnvOp::Assign { assignment, private }) => {
            let layer: Layer = ask_layer(private);
            match text::split_once(assignment.as_str(), '=') {
                None => Err(refuse_assignment(assignment.as_str())),
                Some((k, v)) => match Key::parse(k.as_str(), layer) {
                    Err(e) => Err(e.message()),
                    Ok(key) => {
                        let mut said: String = text::cat("set: ", k.as_str());
                        said.append(" (");
                        said.append(layer.name());
                        said.append(")\n");
                        Ok(EnvPlan::Write { key, value: v, said })
                    },
                },
            }
        },
        Some(EnvOp::Unset { key, private }) => {
            let layer: Layer = ask_layer(private);
            match Key::parse(key.as_str(), layer) {
                Err(e) => Err(e.message()),
                Ok(k) => {
                    let mut said: String = text::cat("unset: ", key.as_str());
                    said.append(" (");
                    said.append(layer.name());
                    said.append(")\n");
                    Ok(EnvPlan::Unset { key: k, said })
                },
            }
        },
        Some(EnvOp::Get { key }) => Ok(EnvPlan::Get { key }),
        Some(EnvOp::Rules { op }) => env_rules(op),
        Some(EnvOp::Hooks { op }) => env_hooks(op),
        None => Ok(
            if args.shared {
                EnvPlan::RawShared
            } else if args.private {
                EnvPlan::RawPrivate
            } else {
                EnvPlan::Status
            },
        ),
    }
}

fn refuse_assignment(s: &str) -> (r: String)
    ensures
        r@ == not_assignment(s@),
{
    text::cat("expected key=value, got ", text::quoted(s).as_str())
}

/// Plans an `env rules` invocation.
pub fn env_rules(op: RulesOp) -> (r: Result<EnvPlan, String>)
    ensures
        outcome(r) == planned_rules(op),
{
    match op {
        RulesOp::Assign { assignment } => match text::split_once(assignment.as_str(), '=') {
            None => Err(refuse_assignment(assignment.as_str())),
            Some((k, v)) => match Key::parse_rule(k.as_str()) {
                Err(e) => Err(e.message()),
                Ok((name, field)) => {
                    let mut said: String = text::cat("rules: set ", k.as_str());
                    said.append("\n");
                    Ok(
                        EnvPlan::Write {
                            key: Key::Shared(SharedKey::Rule(name, field)),
                            value: v,
                            said,
                        },
                    )
                },
            },
        },
        RulesOp::Unset { key } => {
            if let Ok((name, field)) = Key::parse_rule(key.as_str()) {
                let mut said: String = text::cat("rules: unset ", key.as_str());
                said.append("\n");
                return Ok(
                    EnvPlan::Unset { key: Key::Shared(SharedKey::Rule(name, field)), said },
                );
            }
            match Key::parse_rule_name(key.as_str()) {
                Ok(name) => Ok(EnvPlan::RemoveRule { name }),
                Err(_) => Err(
                    text::cat("rules: invalid key ", text::quoted(key.as_str()).as_str()),
                ),
            }
        },
        RulesOp::Get { key } => Ok(EnvPlan::GetRule { key }),
        RulesOp::List => Ok(EnvPlan::ListRules),
    }
}

/// Plans an `env hooks` invocation.
pub fn env_hooks(op: HooksOp) -> (r: Result<EnvPlan, String>)
    ensures
        outcome(r) == planned_hooks(op),
{
    match op {
        HooksOp::Assign { assignment } => match text::split_once(assignment.as_str(), '=') {
            None => Err(refuse_assignment(assignment.as_str())),
            Some((k, v)) => match Key::parse_hook(k.as_str()) {
                Err(e) => Err(e.message()),
                Ok((name, field)) => {
                    let mut said: String = text::cat("hooks: set ", k.as_str());
                    said.append("\n");
                    Ok(
                        EnvPlan::Write {
                            key: Key::Shared(SharedKey::Hook(name, field)),
                            value: v,
                            said,
                        },
                    )
                },
            },
        },
        HooksOp::Unset { key } => {
            if let Ok((name, field)) = Key::parse_hook(key.as_str()) {
                let mut said: String = text::cat("hooks: unset ", key.as_str());
                said.append("\n");
                return Ok(
                    EnvPlan::Unset { key: Key::Shared(SharedKey::Hook(name, field)), said },
                );
            }
            match Key::parse_hook_name(key.as_str()) {
                Ok(name) => Ok(EnvPlan::RemoveHook { name }),
                Err(_) => Err(
                    text::cat("hooks: invalid key ", text::quoted(key.as_str()).as_str()),
                ),
            }
        },
        HooksOp::Get { key } => Ok(EnvPlan::GetHook { key }),
        HooksOp::List => Ok(EnvPlan::ListHooks),
    }
}

// --- one merged value -------------------------------------------------------

/// What `env get` shows.
pub open spec fn shown_value(m: Map<Text, MergedRepoModel>, key: Text) -> Result<Text, Text> {
    match looked_up(m, key) {
        Some(v) => Ok(v + "\n"@),
        None => Err("env get: no value for "@ + text::debug_text(key)),
    }
}

/// Shows one merged value.
pub fn env_get(merged: &Merged, key: &str) -> (r: Result<String, String>)
    ensures
        outcome(r) == shown_value(merged.deep_view(), key@),
{
    match lookup(merged, key) {
        Some(v) => Ok(text::cat(v.as_str(), "\n")),
        None => Err(text::cat("env get: no value for ", text::quoted(key).as_str())),
    }
}

// --- rules ------------------------------------------------------------------

/// What is said of a rule that was to be dropped.
pub open spec fn rule_dropped(was_there: bool, name: Text) -> Result<Text, Text> {
    if was_there {
        Ok("rules: removed rule "@ + name + "\n"@)
    } else {
        Err("rules: no rule named "@ + name)
    }
}

/// Drops a whole rule, or says that there is none.
pub fn remove_rule(cfg: &mut RulesConfig, name: &RuleName) -> (r: Result<String, String>)
    ensures
        outcome(r) == rule_dropped(
            old(cfg).deep_view().contains_key(name.deep_view()),
            name.deep_view(),
        ),
        final(cfg).deep_view() == old(cfg).deep_view().remove(name.deep_view()),
{
    if store::unset_rule_by_name(cfg, name.as_str()) {
        let mut said: String = text::cat("rules: removed rule ", name.as_str());
        said.append("\n");
        Ok(said)
    } else {
        Err(text::cat("rules: no rule named ", name.as_str()))
    }
}

/// A line with a field, if the field is set.
pub open spec fn field_line(label: Text, v: Option<Text>) -> Text {
    match v {
        Some(s) => label + s + "\n"@,
        None => Seq::empty(),
    }
}

/// What `env rules get` shows: one field, or all fields of a rule.
pub open spec fn shown_rule(m: Map<Text, SharedRuleModel>, key: Text) -> Result<Text, Text> {
    match parsed_rule(key) {
        Ok((name, field)) => if !m.contains_key(name) {
            Err("rules get: no rule named "@ + name)
        } else {
            match rule_value(m[name], field) {
                Some(v) => Ok(v + "\n"@),
                None => Err("rules get: no value for "@ + key),
            }
        },
        Err(_) => match parsed_bare_name(key, KeyErrorModel::InvalidRuleName(key)) {
            Ok(name) => if !m.contains_key(name) {
                Err("rules get: no rule named "@ + name)
            } else {
                Ok(
                    field_line("pattern   = "@, m[name].pattern) + field_line(
                        "predicate = "@,
                        m[name].predicate,
                    ) + field_line("message   = "@, m[name].message),
                )
            },
            Err(_) => Err("rules: invalid key "@ + text::debug_text(key)),
        },
    }
}

fn write_field(label: &str, v: &Option<String>) -> (r: String)
    ensures
        r@ == field_line(label@, v.deep_view()),
{
    match v {
        Some(s) => {
            let mut out: String = text::cat(label, s.as_str());
            out.append("\n");
            out
        },
        None => String::new(),
    }
}

/// Shows one field of a rule, or all fields of a rule by bare name.
pub fn get_rule(cfg: &RulesConfig, key: &str) -> (r: Result<String, String>)
    ensures
        outcome(r) == shown_rule(cfg.deep_view(), key@),
{
    if let Ok((name, field)) = Key::parse_rule(key) {
        return match cfg.rules.get(name.as_str()) {
            None => Err(text::cat("rules get: no rule named ", name.as_str())),
            Some(entry) => {
                let value: &Option<String> = match field {
                    RuleField::Pattern => &entry.pattern,
                    RuleField::Predicate => &entry.predicate,
                    RuleField::Message => &entry.message,
                };
                match value {
                    Some(v) => Ok(text::cat(v.as_str(), "\n")),
                    None => Err(text::cat("rules get: no value for ", key)),
                }
            },
        };
    }
    match Key::parse_rule_name(key) {
        Ok(name) => match cfg.rules.get(name.as_str()) {
            None => Err(text::cat("rules get: no rule named ", name.as_str())),
            Some(entry) => {
                let mut out: String = write_field("pattern   = ", &entry.pattern);
                out.append(write_field("predicate = ", &entry.predicate).as_str());
                out.append(write_field("message   = ", &entry.message).as_str());
                Ok(out)
            },
        },
        Err(_) => Err(text::cat("rules: invalid key ", text::quoted(key).as_str())),
    }
}

/// A value, or what stands for one that is not set.
pub open spec fn or_text(v: Option<Text>, d: Text) -> Text {
    match v {
        Some(s) => s,
        None => d,
    }
}

/// A rule in the list.
pub open spec fn rule_entry(name: Text, r: SharedRuleModel) -> Text {
    name + "\n"@ + "  pattern: "@ + or_text(r.pattern, "(unset)"@) + "\n"@ + field_line(
        "  message: "@,
        r.message,
    )
}

/// The rules `ks` in the list.
pub open spec fn rule_entries(m: Map<Text, SharedRuleModel>, ks: Seq<Text>) -> Text
    decreases ks.len(),
{
    if ks.len() == 0 {
        Seq::empty()
    } else {
        rule_entries(m, ks.drop_last()) + rule_entry(ks.last(), m[ks.last()])
    }
}

/// What `env rules list` shows.
pub open spec fn listed_rules(m: Map<Text, SharedRuleModel>) -> Text {
    if keys_of(m).len() == 0 {
        "(no rules configured)\n"@
    } else {
        rule_entries(m, keys_of(m))
    }
}

fn or_str<'a>(v: &'a Option<String>, d: &'a str) -> (r: &'a str)
    ensures
        r@ == or_text(v.deep_view(), d@),
{
    match v {
        Some(s) => s.as_str(),
        None => d,
    }
}

/// Shows all rules, in name order.
pub fn list_rules(cfg: &RulesConfig) -> (r: String)
    ensures
        r@ == listed_rules(cfg.deep_view()),
{
    let ghost m = cfg.deep_view();
    let ghost q = keys_of(m);
    let n: usize = cfg.rules.len();
    if n == 0 {
        return "(no rules configured)\n".to_owned();
    }
    let mut out: String = String::new();
    assert(rule_entries(m, q.take(0)) =~= out@);
    for i in 0..n
        invariant
            m == cfg.deep_view(),
            q == keys_of(m),
            n == q.len(),
            out@ == rule_entries(m, q.take(i as int)),
    {
        assert(q.take(i + 1).drop_last() =~= q.take(i as int));
        let entry: &SharedRule = cfg.rules.value_at(i);
        let mut line: String = text::cat(cfg.rules.key_at(i), "\n");
        line.append("  pattern: ");
        line.append(or_str(&entry.pattern, "(unset)"));
        line.append("\n");
        line.append(write_field("  message: ", &entry.message).as_str());
        out.append(line.as_str());
    }
    assert(q.take(n as int) =~= q);
    out
}

// --- hooks ------------------------------------------------------------------

/// What is said of a hook that was to be dropped.
pub open spec fn hook_dropped(was_there: bool, name: Text) -> Result<Text, Text> {
    if was_there {
        Ok("hooks: removed hook "@ + name + "\n"@)
    } else {
        Err("hooks: no hook named "@ + name)
    }
}

/// Drops a whole hook, or says that there is none.
pub fn remove_hook(cfg: &mut HooksConfig, name: &HookName) -> (r: Result<String, String>)
    ensures
        outcome(r) == hook_dropped(
            old(cfg).deep_view().contains_key(name.deep_view()),
            name.deep_view(),
        ),
        final(cfg).deep_view() == old(cfg).deep_view().remove(name.deep_view()),
{
    if store::unset_hook_by_name(cfg, name.as_str()) {
        let mut said: String = text::cat("hooks: removed hook ", name.as_str());
        said.append("\n");
        Ok(said)
    } else {
        Err(text::cat("hooks: no hook named ", name.as_str()))
    }
}

/// What `env hooks get` shows: one field, or all fields of a hook.
pub open spec fn shown_hook(m: Map<Text, SharedHookModel>, key: Text) -> Result<Text, Text> {
    match parsed_hook(key) {
        Ok((name, field)) => if !m.contains_key(name) {
            Err("hooks get: no hook named "@ + name)
        } else {
            match hook_value(m[name], field) {
                Some(v) => Ok(v + "\n"@),
                None => Err("hooks get: no value for "@ + key),
            }
        },
        Err(_) => match parsed_bare_name(key, KeyErrorModel::InvalidHookName(key)) {
            Ok(name) => if !m.contains_key(name) {
                Err("hooks get: no hook named "@ + name)
            } else {
                Ok(
                    field_line("match = "@, m[name].match_pattern) + field_line(
                        "exec  = "@,
                        m[name].exec_command,
                    ) + field_line("when  = "@, m[name].when),
                )
            },
            Err(_) => Err("hooks: invalid key "@ + text::debug_text(key)),
        },
    }
}

/// Shows one field of a hook, or all fields of a hook by bare name.
pub fn get_hook(cfg: &HooksConfig, key: &str) -> (r: Result<String, String>)
    ensures
        outcome(r) == shown_hook(cfg.deep_view(), key@),
{
    if let Ok((name, field)) = Key::parse_hook(key) {
        return match cfg.hooks.get(name.as_str()) {
            None => Err(text::cat("hooks get: no hook named ", name.as_str())),
            Some(entry) => {
                let value: &Option<String> = match field {
                    HookField::Match => &entry.match_pattern,
                    HookField::Exec => &entry.exec_command,
                    HookField::When => &entry.when,
                };
                match value {
                    Some(v) => Ok(text::cat(v.as_str(), "\n")),
                    None => Err(text::cat("hooks get: no value for ", key)),
                }
            },
        };
    }
    match Key::parse_hook_name(key) {
        Ok(name) => match cfg.hooks.get(name.as_str()) {
            None => Err(text::cat("hooks get: no hook named ", name.as_str())),
            Some(entry) => {
                let mut out: String = write_field("match = ", &entry.match_pattern);
                out.append(write_field("exec  = ", &entry.exec_command).as_str());
                out.append(write_field("when  = ", &entry.when).as_str());
                Ok(out)
            },
        },
        Err(_) => Err(text::cat("hooks: invalid key ", text::quoted(key).as_str())),
    }
}

/// A hook in the list.
pub open spec fn hook_entry(name: Text, h: SharedHookModel) -> Text {
    name + " ("@ + or_text(h.when, "post"@) + ")\n"@ + "  match: "@ + or_text(
        h.match_pattern,
        "(unset)"@,
    ) + "\n"@ + field_line("  exec: "@, h.exec_command)
}

/// The hooks `ks` in the list.
pub open spec fn hook_entries(m: Map<Text, SharedHookModel>, ks: Seq<Text>) -> Text
    decreases ks.len(),
{
    if ks.len() == 0 {
        Seq::empty()
    } else {
        hook_entries(m, ks.drop_last()) + hook_entry(ks.last(), m[ks.last()])
    }
}

/// What `env hooks list` shows.
pub open spec fn listed_hooks(m: Map<Text, SharedHookModel>) -> Text {
    if keys_of(m).len() == 0 {
        "(no hooks configured)\n"@
    } else {
        hook_entries(m, keys_of(m))
    }
}

/// Shows all hooks, in name order.
pub fn list_hooks(cfg: &HooksConfig) -> (r: String)
    ensures
        r@ == listed_hooks(cfg.deep_view()),
{
    let ghost m = cfg.deep_view();
    let ghost q = keys_of(m);
    let n: usize = cfg.hooks.len();
    if n == 0 {
        return "(no hooks configured)\n".to_owned();
    }
    let mut out: String = String::new();
    assert(hook_entries(m, q.take(0)) =~= out@);
    for i in 0..n
        invariant
            m == cfg.deep_view(),
            q == keys_of(m),
            n == q.len(),
            out@ == hook_entries(m, q.take(i as int)),
    {
        assert(q.take(i + 1).drop_last() =~= q.take(i as int));
        let entry: &SharedHook = cfg.hooks.value_at(i);
        let mut line: String = text::cat(cfg.hooks.key_at(i), " (");
        line.append(or_str(&entry.when, "post"));
        line.append(")\n");
        line.append("  match: ");
        line.append(or_str(&entry.match_pattern, "(unset)"));
        line.append("\n");
        line.append(write_field("  exec: ", &entry.exec_command).as_str());
        out.append(line.as_str());
    }
    assert(q.take(n as int) =~= q);
    out
}

// --- the raw layers ---------------------------------------------------------

/// A section behind others, where it has something to show.
pub open spec fn section(shown: bool, body: Text) -> Text {
    if shown {
        "\n"@ + body
    } else {
        Seq::empty()
    }
}

/// The raw shared layer, from its files as they are stored: the manifest, then
/// the rules and the hooks where there are any.
pub open spec fn raw_text(
    repos: Text,
    rules: Map<Text, SharedRuleModel>,
    rules_file: Text,
    hooks: Map<Text, SharedHookModel>,
    hooks_file: Text,
) -> Text {
    repos + section(rules != Map::<Text, SharedRuleModel>::empty(), rules_file) + section(
        hooks != Map::<Text, SharedHookModel>::empty(),
        hooks_file,
    )
}

/// Shows the raw shared layer.
pub fn raw_shared(
    repos: String,
    rules: &RulesConfig,
    rules_file: &str,
    hooks: &HooksConfig,
    hooks_file: &str,
) -> (r: String)
    ensures
        r@ == raw_text(
            repos@,
            rules.deep_view(),
            rules_file@,
            hooks.deep_view(),
            hooks_file@,
        ),
{
    let mut out: String = repos;
    if !rules.rules.is_empty() {
        out.append("\n");
        out.append(rules_file);
    }
    let ghost so_far = out@;
    assert(so_far =~= repos@ + section(
        rules.deep_view() != Map::<Text, SharedRuleModel>::empty(),
        rules_file@,
    ));
    if !hooks.hooks.is_empty() {
        out.append("\n");
        out.append(hooks_file);
    }
    assert(out@ =~= so_far + section(
        hooks.deep_view() != Map::<Text, SharedHookModel>::empty(),
        hooks_file@,
    ));
    out
}

// --- laws -------------------------------------------------------------------

/// The layer that a plan writes to, if it writes.
pub open spec fn written_layer(p: EnvPlanModel) -> Option<Layer> {
    match p {
        EnvPlanModel::Write { key, .. } => Some(key.layer()),
        EnvPlanModel::Unset { key, .. } => Some(key.layer()),
        EnvPlanModel::RemoveRule { .. } => Some(Layer::Shared),
        EnvPlanModel::RemoveHook { .. } => Some(Layer::Shared),
        _ => None,
    }
}

/// **Writes go to the layer that was asked for**: `env set` and `env unset`
/// write to the private layer if and only if `--private` is given; `env rules`
/// and `env hooks` write to the shared layer only; nothing else writes.
pub proof fn law_writes_go_to_their_layer(args: EnvArgs)
    requires
        planned(args) is Ok,
    ensures
        match args.op {
            Some(EnvOp::Assign { private, .. }) => written_layer(planned(args)->Ok_0) == Some(
                asked_layer(private),
            ),
            Some(EnvOp::Unset { private, .. }) => written_layer(planned(args)->Ok_0) == Some(
                asked_layer(private),
            ),
            Some(EnvOp::Rules { .. }) => written_layer(planned(args)->Ok_0) != Some(
                Layer::Private,
            ),
            Some(EnvOp::Hooks { .. }) => written_layer(planned(args)->Ok_0) != Some(
                Layer::Private,
            ),
            _ => written_layer(planned(args)->Ok_0) is None,
        },
{
}

/// **What `env set` wrote is what `env get` shows**: an assignment to a key of
/// the shared layer is a write of that key, and `env get` of the key then shows
/// the value, unless the private layer overrides it.
pub proof fn law_set_then_get(
    s: Map<Text, SharedRepoModel>,
    p: Map<Text, PrivateRepoModel>,
    home: Option<Text>,
    key: Text,
    v: Text,
)
    requires
        !key.contains('='),
        parsed_key(key, Layer::Shared) is Ok,
        !overridden(p, parsed_key(key, Layer::Shared)->Ok_0->Shared_0),
    ensures
        ({
            let k = parsed_key(key, Layer::Shared)->Ok_0->Shared_0;
            &&& planned_assign(key + "="@ + v, Layer::Shared) matches Ok(
                EnvPlanModel::Write { key: written, value, .. },
            ) && written == KeyModel::Shared(k) && value == v
            &&& shown_value(merged(change_repo(s, k, Some(v)), p, home), key) == (match reads_as(
                k is Paths,
                v,
            ) {
                Some(t) => Ok::<Text, Text>(t + "\n"@),
                None => Err("env get: no value for "@ + text::debug_text(key)),
            })
        }),
{
    reveal_strlit("=");
    assert("="@ =~= seq!['=']);
    text::lemma_split_first(key, '=', v);
    law_parse_then_dotted(key, Layer::Shared);
    let k = parsed_key(key, Layer::Shared)->Ok_0->Shared_0;
    law_get_after_shared_set(s, p, home, k, v);
}

/// **The command that a refused sync suggests fixes the repo that it names**:
/// it is a valid assignment, and after it the repo maps the branchtype.
pub proof fn law_suggestion_fixes(
    s: Map<Text, SharedRepoModel>,
    p: Map<Text, PrivateRepoModel>,
    home: Option<Text>,
    name: Text,
    bt: Text,
    branch: Text,
)
    requires
        valid_name(name),
        valid_name(bt),
        !name.contains('='),
        !bt.contains('='),
    ensures
        ({
            let k = SharedKeyModel::Branchtype(name, bt);
            let m = merged(change_repo(s, k, Some(branch)), p, home);
            &&& planned_assign(
                name + ".branchtypes."@ + bt + "="@ + branch,
                Layer::Shared,
            ) matches Ok(EnvPlanModel::Write { key, value, .. }) && key == KeyModel::Shared(k)
                && value == branch
            &&& m.contains_key(name)
            &&& m[name].branchtypes.contains_key(bt)
        }),
{
    let k = SharedKeyModel::Branchtype(name, bt);
    let dotted = KeyModel::Shared(k).dotted();
    reveal_strlit("=");
    reveal_strlit(".branchtypes.");
    assert("="@ =~= seq!['=']);
    assert forall|i: int| 0 <= i < dotted.len() implies dotted[i] != '=' by {
        let n = name.len();
        let f = ".branchtypes."@.len();
        if i < n {
            assert(dotted[i] == name[i]);
        } else if i < n + f {
            assert(dotted[i] == ".branchtypes."@[i - n]);
        } else {
            assert(dotted[i] == bt[i - n - f]);
        }
    }
    text::lemma_split_first(dotted, '=', branch);
    law_dotted_then_parse(KeyModel::Shared(k));
    let e = store::change_repo_field(
        store::entry_or(s, name, SharedRepoModel::empty()),
        k,
        Some(branch),
    );
    assert(e.branchtypes.contains_key(bt));
    assert(!Map::<Text, Text>::empty().contains_key(bt));
    assert(change_repo(s, k, Some(branch)).get(name) == Some(e));
}

/// **What was set is what is shown**: after a rule field is set, `env rules
/// get` of that field shows the value.
pub proof fn law_rule_set_then_get(
    m: Map<Text, SharedRuleModel>,
    key: Text,
    name: Text,
    f: RuleField,
    v: Text,
)
    requires
        parsed_rule(key) == Ok::<(Text, RuleField), KeyErrorModel>((name, f)),
    ensures
        shown_rule(store::change_rule(m, name, f, Some(v)), key) == Ok::<Text, Text>(v + "\n"@),
{
}

/// **What was set is what is shown**: after a hook field is set, `env hooks
/// get` of that field shows the value.
pub proof fn law_hook_set_then_get(
    m: Map<Text, SharedHookModel>,
    key: Text,
    name: Text,
    f: HookField,
    v: Text,
)
    requires
        parsed_hook(key) == Ok::<(Text, HookField), KeyErrorModel>((name, f)),
    ensures
        shown_hook(store::change_hook(m, name, f, Some(v)), key) == Ok::<Text, Text>(v + "\n"@),
{
}

} // verus!
