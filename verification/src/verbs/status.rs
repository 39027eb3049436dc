//! The interpreted status report of `env`.

use crate::store::{RulesConfig, SharedRuleModel};
use crate::text::{self, Text};
use crate::textmap::{keys_of, TextMap};
use crate::verbs::merged::{lemma_take_set, Merged, MergedRepoModel};
use vstd::prelude::*;

verus! {

/// The plural ending for a count.
pub open spec fn plural(n: nat) -> Text {
    if n == 1 {
        ""@
    } else {
        "s"@
    }
}

/// The plural ending for a count.
pub fn plural_end(n: usize) -> (r: &'static str)
    ensures
        r@ == plural(n as nat),
{
    if n == 1 {
        ""
    } else {
        "s"
    }
}

// --- who has what -----------------------------------------------------------

/// Those of the repos `ks`, in order, that do not map a branchtype.
pub open spec fn missing_names(
    m: Map<Text, MergedRepoModel>,
    ks: Seq<Text>,
    bt: Text,
) -> Seq<Text>
    decreases ks.len(),
{
    if ks.len() == 0 {
        Seq::empty()
    } else if m[ks.last()].branchtypes.contains_key(bt) {
        missing_names(m, ks.drop_last(), bt)
    } else {
        missing_names(m, ks.drop_last(), bt).push(ks.last())
    }
}

/// Those of the repos `ks`, in order, that have sparse paths.
pub open spec fn sparse_names(m: Map<Text, MergedRepoModel>, ks: Seq<Text>) -> Seq<Text>
    decreases ks.len(),
{
    if ks.len() == 0 {
        Seq::empty()
    } else if m[ks.last()].paths.len() > 0 {
        sparse_names(m, ks.drop_last()).push(ks.last())
    } else {
        sparse_names(m, ks.drop_last())
    }
}

/// How many of the repos `ks` have an auth setting.
pub open spec fn with_auth(m: Map<Text, MergedRepoModel>, ks: Seq<Text>) -> nat
    decreases ks.len(),
{
    if ks.len() == 0 {
        0
    } else if m[ks.last()].auth_count > 0 {
        with_auth(m, ks.drop_last()) + 1
    } else {
        with_auth(m, ks.drop_last())
    }
}

/// The branchtypes that some repo maps.
pub open spec fn known_branchtypes(m: Map<Text, MergedRepoModel>) -> Set<Text> {
    Set::new(|b: Text| exists|n: Text| #[trigger] m.contains_key(n) && m[n].branchtypes.contains_key(b))
}

/// Finds the repos that do not map `bt`, in name order.
pub fn repos_missing(merged: &Merged, bt: &str) -> (r: Vec<String>)
    ensures
        r.deep_view() == missing_names(merged.deep_view(), keys_of(merged.deep_view()), bt@),
        r@.len() <= keys_of(merged.deep_view()).len(),
{
    let ghost m = merged.deep_view();
    let ghost q = keys_of(m);
    let n: usize = merged.repos.len();
    let mut out: Vec<String> = Vec::new();
    assert(out.deep_view() =~= missing_names(m, q.take(0), bt@));
    for i in 0..n
        invariant
            m == merged.deep_view(),
            q == keys_of(m),
            n == q.len(),
            out@.len() <= i,
            out.deep_view() == missing_names(m, q.take(i as int), bt@),
    {
        let ghost done = out.deep_view();
        assert(q.take(i + 1).drop_last() =~= q.take(i as int));
        if !merged.repos.value_at(i).branchtypes.contains_key(bt) {
            out.push(merged.repos.key_at(i).to_owned());
            assert(out.deep_view() =~= done.push(q[i as int]));
        }
    }
    assert(q.take(n as int) =~= q);
    out
}

fn repos_sparse(merged: &Merged) -> (r: Vec<String>)
    ensures
        r.deep_view() == sparse_names(merged.deep_view(), keys_of(merged.deep_view())),
{
    let ghost m = merged.deep_view();
    let ghost q = keys_of(m);
    let n: usize = merged.repos.len();
    let mut out: Vec<String> = Vec::new();
    assert(out.deep_view() =~= sparse_names(m, q.take(0)));
    for i in 0..n
        invariant
            m == merged.deep_view(),
            q == keys_of(m),
            n == q.len(),
            out.deep_view() == sparse_names(m, q.take(i as int)),
    {
        let ghost done = out.deep_view();
        assert(q.take(i + 1).drop_last() =~= q.take(i as int));
        if merged.repos.value_at(i).paths.len() > 0 {
            out.push(merged.repos.key_at(i).to_owned());
            assert(out.deep_view() =~= done.push(q[i as int]));
        }
    }
    assert(q.take(n as int) =~= q);
    out
}

fn count_with_auth(merged: &Merged) -> (r: usize)
    ensures
        r == with_auth(merged.deep_view(), keys_of(merged.deep_view())),
{
    let ghost m = merged.deep_view();
    let ghost q = keys_of(m);
    let n: usize = merged.repos.len();
    let mut out: usize = 0;
    for i in 0..n
        invariant
            m == merged.deep_view(),
            q == keys_of(m),
            n == q.len(),
            out <= i,
            out == with_auth(m, q.take(i as int)),
    {
        assert(q.take(i + 1).drop_last() =~= q.take(i as int));
        if merged.repos.value_at(i).auth_count > 0 {
            out = out + 1;
        }
    }
    assert(q.take(n as int) =~= q);
    out
}

/// Whether one of the repos `ks` maps `b`.
spec fn known_in(m: Map<Text, MergedRepoModel>, ks: Seq<Text>, b: Text) -> bool {
    exists|j: int| 0 <= j < ks.len() && (#[trigger] m[ks[j]]).branchtypes.contains_key(b)
}

fn branchtypes_known(merged: &Merged) -> (r: Vec<String>)
    ensures
        r.deep_view() == text::sorted(known_branchtypes(merged.deep_view())),
        known_branchtypes(merged.deep_view()).finite(),
{
    let ghost m = merged.deep_view();
    let ghost q = keys_of(m);
    let n: usize = merged.repos.len();
    let mut seen: TextMap<bool> = TextMap::new();
    for i in 0..n
        invariant
            m == merged.deep_view(),
            q == keys_of(m),
            n == q.len(),
            forall|b: Text|
                #[trigger] seen.deep_view().contains_key(b) <==> known_in(m, q.take(i as int), b),
    {
        let bts: &TextMap<String> = &merged.repos.value_at(i).branchtypes;
        let ghost t = bts.deep_view();
        let k: usize = bts.len();
        let ghost start = seen.deep_view();
        proof {
            text::lemma_sorted(t.dom());
        }
        for j in 0..k
            invariant
                t == bts.deep_view(),
                k == keys_of(t).len(),
                forall|b: Text|
                    #[trigger] seen.deep_view().contains_key(b) <==> start.contains_key(b)
                        || keys_of(t).take(j as int).to_set().contains(b),
        {
            seen.insert(bts.key_at(j).to_owned(), true);
            proof {
                lemma_take_set(keys_of(t), j as int);
            }
        }
        proof {
            assert(keys_of(t).take(k as int) =~= keys_of(t));
            assert(m[q[i as int]].branchtypes == t);
            assert forall|b: Text| #[trigger]
                seen.deep_view().contains_key(b) <==> known_in(m, q.take(i + 1), b) by {
                if known_in(m, q.take(i as int), b) {
                    let j = choose|j: int|
                        0 <= j < q.take(i as int).len() && (
                        #[trigger] m[q.take(i as int)[j]]).branchtypes.contains_key(b);
                    assert(q.take(i + 1)[j] == q.take(i as int)[j]);
                }
                if t.contains_key(b) {
                    assert(q.take(i + 1)[i as int] == q[i as int]);
                }
                if known_in(m, q.take(i + 1), b) {
                    let j = choose|j: int|
                        0 <= j < q.take(i + 1).len() && (
                        #[trigger] m[q.take(i + 1)[j]]).branchtypes.contains_key(b);
                    if j < i {
                        assert(q.take(i as int)[j] == q.take(i + 1)[j]);
                    }
                }
            }
        }
    }
    let r: Vec<String> = seen.keys();
    proof {
        assert(q.take(n as int) =~= q);
        text::lemma_sorted(m.dom());
        assert forall|b: Text|
            seen.deep_view().contains_key(b) <==> known_branchtypes(m).contains(b) by {
            if known_in(m, q, b) {
                let j = choose|j: int|
                    0 <= j < q.len() && (#[trigger] m[q[j]]).branchtypes.contains_key(b);
                assert(q.contains(q[j]));
                assert(m.contains_key(q[j]));
            }
            if known_branchtypes(m).contains(b) {
                let x = choose|x: Text| #[trigger]
                    m.contains_key(x) && m[x].branchtypes.contains_key(b);
                assert(q.contains(x));
                let j = choose|j: int| 0 <= j < q.len() && q[j] == x;
                assert(m[q[j]].branchtypes.contains_key(b));
            }
        }
        assert(seen.deep_view().dom() =~= known_branchtypes(m));
    }
    r
}

// --- the report -------------------------------------------------------------

/// The column in which the coverage counts start.
pub const NAME_WIDTH: usize = 6;

/// The coverage line of one branchtype.
pub open spec fn coverage_line(m: Map<Text, MergedRepoModel>, bt: Text) -> Text {
    let ks = keys_of(m);
    let missing = missing_names(m, ks, bt);
    let head = "  "@ + text::padded(bt, NAME_WIDTH as int) + " "@ + text::decimal(
        (ks.len() - missing.len()) as nat,
    ) + "/"@ + text::decimal(ks.len());
    if missing.len() > 0 {
        head + "   missing: "@ + text::joined(missing, ", "@) + "\n"@
    } else {
        head + "\n"@
    }
}

/// The coverage lines of the branchtypes `bts`.
pub open spec fn coverage_lines(m: Map<Text, MergedRepoModel>, bts: Seq<Text>) -> Text
    decreases bts.len(),
{
    if bts.len() == 0 {
        Seq::empty()
    } else {
        coverage_lines(m, bts.drop_last()) + coverage_line(m, bts.last())
    }
}

/// The part of the report on branchtypes.
pub open spec fn coverage_part(m: Map<Text, MergedRepoModel>) -> Text {
    let bts = text::sorted(known_branchtypes(m));
    if bts.len() == 0 {
        Seq::empty()
    } else {
        "branchtype coverage:\n"@ + coverage_lines(m, bts)
    }
}

/// The part of the report on sparse specs.
pub open spec fn sparse_part(m: Map<Text, MergedRepoModel>) -> Text {
    let names = sparse_names(m, keys_of(m));
    if names.len() == 0 {
        Seq::empty()
    } else {
        "sparse specs: "@ + text::decimal(names.len()) + " repo"@ + plural(names.len()) + " ("@
            + text::joined(names, ", "@) + ")\n"@
    }
}

/// The part of the report on auth.
pub open spec fn auth_part(m: Map<Text, MergedRepoModel>) -> Text {
    "auth: "@ + text::decimal(with_auth(m, keys_of(m))) + "/"@ + text::decimal(keys_of(m).len())
        + " configured (private)\n"@
}

/// The part of the report on rules.
pub open spec fn rules_part(rules: Map<Text, SharedRuleModel>) -> Text {
    if keys_of(rules).len() == 0 {
        Seq::empty()
    } else {
        "rules: "@ + text::decimal(keys_of(rules).len()) + " active ("@ + text::joined(
            keys_of(rules),
            ", "@,
        ) + ")\n"@
    }
}

/// The first line of the report.
pub open spec fn registered_line(n: nat) -> Text {
    text::decimal(n) + " repo"@ + plural(n) + " registered\n"@
}

/// The status report.
pub open spec fn status_text(
    m: Map<Text, MergedRepoModel>,
    rules: Map<Text, SharedRuleModel>,
) -> Text {
    if keys_of(m).len() == 0 {
        registered_line(0)
    } else {
        registered_line(keys_of(m).len()) + coverage_part(m) + sparse_part(m) + auth_part(m)
            + rules_part(rules)
    }
}

fn write_coverage_line(merged: &Merged, bt: &str) -> (r: String)
    ensures
        r@ == coverage_line(merged.deep_view(), bt@),
{
    let total: usize = merged.repos.len();
    let missing: Vec<String> = repos_missing(merged, bt);
    let mut out: String = text::cat("  ", text::pad(bt, NAME_WIDTH).as_str());
    out.append(" ");
    out.append(text::count(total - missing.len()).as_str());
    out.append("/");
    out.append(text::count(total).as_str());
    if missing.len() > 0 {
        out.append("   missing: ");
        out.append(text::join(&missing, ", ").as_str());
    }
    out.append("\n");
    out
}

fn write_coverage(merged: &Merged) -> (r: String)
    ensures
        r@ == coverage_part(merged.deep_view()),
{
    let bts: Vec<String> = branchtypes_known(merged);
    let mut out: String = String::new();
    if bts.len() == 0 {
        return out;
    }
    let ghost m = merged.deep_view();
    let ghost q = bts.deep_view();
    assert(coverage_lines(m, q.take(0)) =~= Seq::empty());
    for i in 0..bts.len()
        invariant
            m == merged.deep_view(),
            q == bts.deep_view(),
            out@ == coverage_lines(m, q.take(i as int)),
    {
        assert(q.take(i + 1).drop_last() =~= q.take(i as int));
        out.append(write_coverage_line(merged, bts[i].as_str()).as_str());
    }
    assert(q.take(bts@.len() as int) =~= q);
    text::cat("branchtype coverage:\n", out.as_str())
}

fn write_sparse(merged: &Merged) -> (r: String)
    ensures
        r@ == sparse_part(merged.deep_view()),
{
    let names: Vec<String> = repos_sparse(merged);
    if names.len() == 0 {
        return String::new();
    }
    let mut out: String = text::cat("sparse specs: ", text::count(names.len()).as_str());
    out.append(" repo");
    out.append(plural_end(names.len()));
    out.append(" (");
    out.append(text::join(&names, ", ").as_str());
    out.append(")\n");
    out
}

fn write_rules(rules: &RulesConfig) -> (r: String)
    ensures
        r@ == rules_part(rules.deep_view()),
{
    let names: Vec<String> = rules.rules.keys();
    if names.len() == 0 {
        return String::new();
    }
    let mut out: String = text::cat("rules: ", text::count(names.len()).as_str());
    out.append(" active (");
    out.append(text::join(&names, ", ").as_str());
    out.append(")\n");
    out
}

/// The interpreted status report: how many repos there are, which branchtypes
/// each of them maps, where sparse specs and auth settings are recorded, and
/// which rules are active.
pub fn print_status(merged: &Merged, rules: &RulesConfig) -> (r: String)
    ensures
        r@ == status_text(merged.deep_view(), rules.deep_view()),
{
    let total: usize = merged.repos.len();
    let mut out: String = text::count(total);
    out.append(" repo");
    out.append(plural_end(total));
    out.append(" registered\n");
    if total == 0 {
        return out;
    }
    out.append(write_coverage(merged).as_str());
    out.append(write_sparse(merged).as_str());
    let mut auth: String = text::cat("auth: ", text::count(count_with_auth(merged)).as_str());
    auth.append("/");
    auth.append(text::count(total).as_str());
    auth.append(" configured (private)\n");
    out.append(auth.as_str());
    out.append(write_rules(rules).as_str());
    out
}

} // verus!
