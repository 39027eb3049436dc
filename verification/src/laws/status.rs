//! What the status report is for.

use crate::store::SharedRuleModel;
use crate::text::{decimal, joined, padded, sorted, Text};
use crate::textmap::keys_of;
use crate::verbs::merged::MergedRepoModel;
use crate::verbs::status::{
    coverage_line, coverage_lines, coverage_part, known_branchtypes, missing_names, plural,
    rules_part, sparse_names, sparse_part, status_text, with_auth,
};
use vstd::prelude::*;

verus! {

/// **Who has sparse paths, and who has auth**: exactly the repos with paths are
/// listed, in order, and exactly those with an auth setting are counted.
pub proof fn law_who_has_what(m: Map<Text, MergedRepoModel>, ks: Seq<Text>)
    ensures
        sparse_names(m, ks) == ks.filter(|k: Text| m[k].paths.len() > 0),
        with_auth(m, ks) == ks.filter(|k: Text| m[k].auth_count > 0).len(),
    decreases ks.len(),
{
    reveal(Seq::filter);
    if ks.len() > 0 {
        law_who_has_what(m, ks.drop_last());
    }
}

/// **A branchtype is known where some repo maps it.**
pub proof fn law_known_branchtypes(m: Map<Text, MergedRepoModel>, bt: Text)
    ensures
        known_branchtypes(m).contains(bt) <==> exists|n: Text| #[trigger]
            m.contains_key(n) && m[n].branchtypes.contains_key(bt),
{
}

/// **There is a coverage line for each branchtype, in order**: it says how many
/// repos map it, of how many, and names every repo that does not.
pub proof fn law_coverage(m: Map<Text, MergedRepoModel>, bts: Seq<Text>)
    ensures
        coverage_lines(m, bts) == bts.map_values(
            |bt: Text|
                {
                    let missing = missing_names(m, keys_of(m), bt);
                    "  "@ + padded(bt, 6) + " "@ + decimal(
                        (keys_of(m).len() - missing.len()) as nat,
                    ) + "/"@ + decimal(keys_of(m).len()) + (if missing.len() > 0 {
                        "   missing: "@ + joined(missing, ", "@)
                    } else {
                        Seq::empty()
                    }) + "\n"@
                },
        ).flatten(),
    decreases bts.len(),
{
    let f = |bt: Text|
        {
            let missing = missing_names(m, keys_of(m), bt);
            "  "@ + padded(bt, 6) + " "@ + decimal((keys_of(m).len() - missing.len()) as nat) + "/"@
                + decimal(keys_of(m).len()) + (if missing.len() > 0 {
                "   missing: "@ + joined(missing, ", "@)
            } else {
                Seq::empty()
            }) + "\n"@
        };
    let lines = bts.map_values(f);
    lines.lemma_flatten_and_flatten_alt_are_equivalent();
    if bts.len() > 0 {
        law_coverage(m, bts.drop_last());
        assert(lines.drop_last() =~= bts.drop_last().map_values(f));
        lines.drop_last().lemma_flatten_and_flatten_alt_are_equivalent();
        assert(lines.last() == f(bts.last()));
        let line = coverage_line(m, bts.last());
        assert(line =~= f(bts.last()));
    }
}

/// **The parts of the report**: each is left out where it has nothing to tell.
pub proof fn law_parts(m: Map<Text, MergedRepoModel>, rules: Map<Text, SharedRuleModel>, n: nat)
    ensures
        ({
            let bts = sorted(known_branchtypes(m));
            coverage_part(m) == if bts.len() == 0 {
                Seq::empty()
            } else {
                "branchtype coverage:\n"@ + coverage_lines(m, bts)
            }
        }),
        ({
            let names = keys_of(m).filter(|k: Text| m[k].paths.len() > 0);
            sparse_part(m) == if names.len() == 0 {
                Seq::empty()
            } else {
                "sparse specs: "@ + decimal(names.len()) + " repo"@ + plural(names.len()) + " ("@
                    + joined(names, ", "@) + ")\n"@
            }
        }),
        ({
            let names = keys_of(rules);
            rules_part(rules) == if names.len() == 0 {
                Seq::empty()
            } else {
                "rules: "@ + decimal(names.len()) + " active ("@ + joined(names, ", "@) + ")\n"@
            }
        }),
        plural(n) == if n == 1 {
            ""@
        } else {
            "s"@
        },
{
    law_who_has_what(m, keys_of(m));
}

/// **The whole report**: how many repos there are, and for more than none the
/// coverage, the sparse specs, how many have auth, and the rules.
pub proof fn law_report(m: Map<Text, MergedRepoModel>, rules: Map<Text, SharedRuleModel>)
    ensures
        ({
            let ks = keys_of(m);
            let first = decimal(ks.len()) + " repo"@ + plural(ks.len()) + " registered\n"@;
            status_text(m, rules) == if ks.len() == 0 {
                first
            } else {
                first + coverage_part(m) + sparse_part(m) + ("auth: "@ + decimal(
                    ks.filter(|k: Text| m[k].auth_count > 0).len(),
                ) + "/"@ + decimal(ks.len()) + " configured (private)\n"@) + rules_part(rules)
            }
        }),
{
    law_who_has_what(m, keys_of(m));
}

} // verus!
